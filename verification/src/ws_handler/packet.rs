//! The text packet format: `||-=-||<type>-=-<arg1>|.|<arg2>|.|...`.

use vstd::prelude::*;
use vstd::string::StrSliceExecFns;
use vstd::string::StringExecFns;

use crate::common::text::{
    chars_of, find, first_match, has_prefix, lemma_find_from, lemma_find_from_is,
    lemma_find_in_tail, matches_at, occurs_at, slice_chars, string_of,
};

verus! {

/// What every packet starts with: `||-=-||`.
pub open spec fn packet_header() -> Seq<char> {
    seq!['|', '|', '-', '=', '-', '|', '|']
}

/// What parts the packet type from its arguments: `-=-`.
pub open spec fn type_separator() -> Seq<char> {
    seq!['-', '=', '-']
}

/// What parts one argument from the next: `|.|`.
pub open spec fn arg_separator() -> Seq<char> {
    seq!['|', '.', '|']
}

fn header_chars() -> (chars: Vec<char>)
    ensures
        chars@ == packet_header(),
{
    let chars: Vec<char> = vec!['|', '|', '-', '=', '-', '|', '|'];
    chars
}

fn type_separator_chars() -> (chars: Vec<char>)
    ensures
        chars@ == type_separator(),
{
    let chars: Vec<char> = vec!['-', '=', '-'];
    chars
}

fn arg_separator_chars() -> (chars: Vec<char>)
    ensures
        chars@ == arg_separator(),
{
    let chars: Vec<char> = vec!['|', '.', '|'];
    chars
}

/// The mathematical content of a [`StringPacket`].
pub struct PacketView {
    pub packet_type: Seq<char>,
    /// The argument text written so far.
    pub args: Seq<char>,
    /// Whether an argument has been added.
    pub has_args: bool,
    pub arg_sep: Seq<char>,
}

impl PacketView {
    /// A packet of the given type without arguments, using `|.|` between
    /// arguments.
    pub open spec fn start(packet_type: Seq<char>) -> PacketView {
        PacketView {
            packet_type,
            args: Seq::<char>::empty(),
            has_args: false,
            arg_sep: arg_separator(),
        }
    }

    /// The packet as it goes over the wire: header, type, type separator,
    /// arguments.
    pub open spec fn text(self) -> Seq<char> {
        packet_header() + self.packet_type + type_separator() + self.args
    }

    /// The packet with one more argument. The first argument is written
    /// bare; every later one is preceded by the separator, whatever the
    /// arguments before it hold.
    pub open spec fn with_arg(self, value: Seq<char>) -> PacketView {
        PacketView {
            args: if self.has_args {
                self.args + self.arg_sep + value
            } else {
                value
            },
            has_args: true,
            ..self
        }
    }

    /// The packet with the given arguments added one after the other.
    pub open spec fn with_args(self, values: Seq<Seq<char>>) -> PacketView
        decreases values.len(),
    {
        if values.len() == 0 {
            self
        } else {
            self.with_args(values.drop_last()).with_arg(values.last())
        }
    }
}

/// The wire text of a packet of the given type whose arguments, already
/// joined, read `args`.
pub open spec fn packet_text(packet_type: Seq<char>, args: Seq<char>) -> Seq<char> {
    packet_header() + packet_type + type_separator() + args
}

/// A builder for one text packet.
pub struct StringPacket {
    packet_type: String,
    args: String,
    has_args: bool,
    arg_sep: String,
}

impl View for StringPacket {
    type V = PacketView;

    closed spec fn view(&self) -> PacketView {
        PacketView {
            packet_type: self.packet_type@,
            args: self.args@,
            has_args: self.has_args,
            arg_sep: self.arg_sep@,
        }
    }
}

impl StringPacket {
    /// A packet of the given type without arguments, using `|.|` between
    /// arguments.
    pub fn new(packet_type: &str) -> (packet: StringPacket)
        ensures
            packet@ == PacketView::start(packet_type@),
    {
        let sep = arg_separator_chars();
        StringPacket {
            packet_type: String::from_str(packet_type),
            args: String::new(),
            has_args: false,
            arg_sep: string_of(&sep),
        }
    }

    /// The same packet, writing `sep` between the arguments added from now
    /// on.
    pub fn arg_sep(self, sep: &str) -> (packet: StringPacket)
        ensures
            packet@ == (PacketView { arg_sep: sep@, ..self@ }),
    {
        StringPacket {
            packet_type: self.packet_type,
            args: self.args,
            has_args: self.has_args,
            arg_sep: String::from_str(sep),
        }
    }

    /// The same packet with one more argument.
    pub fn arg(self, value: &str) -> (packet: StringPacket)
        ensures
            packet@ == self@.with_arg(value@),
    {
        let args = if self.has_args {
            let mut args = self.args;
            args.append(self.arg_sep.as_str());
            args.append(value);
            args
        } else {
            String::from_str(value)
        };
        StringPacket { packet_type: self.packet_type, args, has_args: true, arg_sep: self.arg_sep }
    }

    /// The packet as it goes over the wire.
    pub fn into_string(self) -> (text: String)
        ensures
            text@ == self@.text(),
    {
        let header = header_chars();
        let sep = type_separator_chars();
        let mut text = string_of(&header);
        text.append(self.packet_type.as_str());
        text.append(string_of(&sep).as_str());
        text.append(self.args.as_str());
        text
    }
}

/// The type and the raw argument text of a packet, or nothing where the
/// text is no packet. A packet starts with the header; its type runs up to
/// the first type separator, which must be there; its argument text runs
/// from there up to the next type separator or the end.
pub open spec fn packet_parts(text: Seq<char>) -> Option<(Seq<char>, Seq<char>)> {
    if !has_prefix(text, packet_header()) {
        None
    } else {
        let body = text.skip(packet_header().len() as int);
        match first_match(body, type_separator()) {
            None => None,
            Some(i) => {
                let rest = body.skip(i + type_separator().len());
                let data = match first_match(rest, type_separator()) {
                    None => rest,
                    Some(j) => rest.take(j),
                };
                Some((body.take(i), data))
            },
        }
    }
}

/// Where in a packet's characters the type and the argument text lie, as
/// two half-open ranges.
pub(crate) fn locate_parts(chars: &Vec<char>) -> (found: Option<(usize, usize, usize, usize)>)
    ensures
        match found {
            None => packet_parts(chars@) is None,
            Some((a, b, c, d)) => a <= b <= c <= d <= chars@.len() && packet_parts(chars@) == Some(
                (chars@.subrange(a as int, b as int), chars@.subrange(c as int, d as int)),
            ),
        },
{
    let header = header_chars();
    let sep = type_separator_chars();
    if !occurs_at(chars, &header, 0) {
        return None;
    }
    proof {
        lemma_find_in_tail(chars@, type_separator(), 7, 0);
        lemma_find_from(chars@, type_separator(), 7);
    }
    let first = match find(chars, &sep, 7) {
        None => {
            return None;
        },
        Some(i) => i,
    };
    let total: usize = chars.len();
    let start: usize = first + 3;
    proof {
        assert(chars@.skip(7).skip(first - 7 + 3) =~= chars@.skip(start as int));
        lemma_find_in_tail(chars@, type_separator(), start as int, 0);
        lemma_find_from(chars@, type_separator(), start as int);
    }
    match find(chars, &sep, start) {
        None => Some((7, first, start, total)),
        Some(j) => Some((7, first, start, j)),
    }
}

/// Splits a packet into its type and its raw argument text.
pub fn check_str_packet<'a>(input_str: &'a str) -> (parts: Option<(&'a str, &'a str)>)
    ensures
        match parts {
            None => packet_parts(input_str@) is None,
            Some((packet_type, data)) => packet_parts(input_str@) == Some(
                (packet_type@, data@),
            ),
        },
{
    let chars = chars_of(input_str);
    match locate_parts(&chars) {
        None => None,
        Some((a, b, c, d)) => Some(
            (input_str.substring_char(a, b), input_str.substring_char(c, d)),
        ),
    }
}


/// The arguments of a packet: the pieces of its argument text between
/// argument separators, found from left to right. A text without separator
/// is one argument, the empty text included.
pub open spec fn arg_fields(data: Seq<char>) -> Seq<Seq<char>>
    decreases data.len(),
{
    match first_match(data, arg_separator()) {
        None => seq![data],
        Some(i) => {
            proof {
                lemma_find_from(data, arg_separator(), 0);
            }
            seq![data.take(i)] + arg_fields(data.skip(i + arg_separator().len()))
        },
    }
}

/// The `n`-th argument of a packet, where it has that many.
pub open spec fn arg_field(data: Seq<char>, n: int) -> Option<Seq<char>> {
    if 0 <= n < arg_fields(data).len() {
        Some(arg_fields(data)[n])
    } else {
        None
    }
}

/// The character sequences that a vector of character vectors holds.
pub open spec fn field_views(fields: Seq<Vec<char>>) -> Seq<Seq<char>> {
    Seq::new(fields.len(), |n: int| fields[n]@)
}

/// Splits an argument text at the argument separators.
pub fn split_args(data: &Vec<char>) -> (fields: Vec<Vec<char>>)
    ensures
        field_views(fields@) == arg_fields(data@),
{
    let sep = arg_separator_chars();
    let total: usize = data.len();
    let mut fields: Vec<Vec<char>> = Vec::new();
    let mut pos: usize = 0;
    assert(data@.skip(0) =~= data@);
    loop
        invariant_except_break
            pos <= total,
            total == data@.len(),
            sep@ == arg_separator(),
            arg_fields(data@) == field_views(fields@) + arg_fields(data@.skip(pos as int)),
        ensures
            field_views(fields@) == arg_fields(data@),
        decreases total - pos,
    {
        let ghost tail = data@.skip(pos as int);
        proof {
            lemma_find_in_tail(data@, arg_separator(), pos as int, 0);
            lemma_find_from(data@, arg_separator(), pos as int);
        }
        match find(data, &sep, pos) {
            None => {
                let piece = slice_chars(data, pos, total);
                fields.push(piece);
                break ;
            },
            Some(j) => {
                let piece = slice_chars(data, pos, j);
                assert(piece@ =~= tail.take(j - pos));
                assert(tail.skip(j - pos + 3) =~= data@.skip(j + 3));
                fields.push(piece);
                pos = j + 3;
            },
        }
    }
    fields
}

/// `sep` does not occur in `s`.
pub open spec fn free_of(s: Seq<char>, sep: Seq<char>) -> bool {
    first_match(s, sep) is None
}

/// `sep` does not occur in `s`, nor does it begin inside `s` when `s` is
/// followed by `sep`: the first occurrence of `sep` in `s + sep` is the one
/// appended.
pub open spec fn sealed_by(s: Seq<char>, sep: Seq<char>) -> bool {
    first_match(s + sep, sep) == Some(s.len() as int)
}

/// In a text that starts with a part sealed by a separator and goes on
/// with that separator, the first occurrence of the separator is the one
/// right after the part.
pub proof fn lemma_sealed_prefix(part: Seq<char>, sep: Seq<char>, rest: Seq<char>)
    requires
        sealed_by(part, sep),
    ensures
        first_match(part + sep + rest, sep) == Some(part.len() as int),
        (part + sep + rest).take(part.len() as int) == part,
        (part + sep + rest).skip((part.len() + sep.len()) as int) == rest,
{
    let short = part + sep;
    let long = part + sep + rest;
    lemma_find_from(short, sep, 0);
    assert(long.subrange(part.len() as int, (part.len() + sep.len()) as int) =~= sep);
    assert forall|j: int| 0 <= j < part.len() implies !matches_at(long, sep, j) by {
        if matches_at(long, sep, j) {
            assert(long.subrange(j, j + sep.len()) =~= short.subrange(j, j + sep.len()));
            assert(matches_at(short, sep, j));
        }
    }
    lemma_find_from_is(long, sep, 0, part.len() as int);
}

/// Encoding then decoding a packet gives back its type and its argument
/// text, for every type that is sealed by the type separator and every
/// argument text that is free of it.
pub proof fn lemma_packet_round_trip(packet_type: Seq<char>, args: Seq<char>)
    requires
        sealed_by(packet_type, type_separator()),
        free_of(args, type_separator()),
    ensures
        packet_parts(packet_text(packet_type, args)) == Some((packet_type, args)),
{
    let text = packet_text(packet_type, args);
    assert(text.subrange(0, 7) =~= packet_header());
    let body = text.skip(7);
    assert(body =~= packet_type + type_separator() + args);
    lemma_sealed_prefix(packet_type, type_separator(), args);
}

/// The argument text made of the given arguments with the argument
/// separator between them.
pub open spec fn joined_args(fields: Seq<Seq<char>>) -> Seq<char>
    decreases fields.len(),
{
    if fields.len() == 0 {
        Seq::<char>::empty()
    } else if fields.len() == 1 {
        fields[0]
    } else {
        fields[0] + arg_separator() + joined_args(fields.skip(1))
    }
}

/// Joining arguments and splitting the result gives back the arguments,
/// provided the last one is free of the argument separator and every other
/// one is sealed by it.
pub proof fn lemma_args_round_trip(fields: Seq<Seq<char>>)
    requires
        fields.len() >= 1,
        free_of(fields.last(), arg_separator()),
        forall|n: int| 0 <= n < fields.len() - 1 ==> sealed_by(#[trigger] fields[n], arg_separator()),
    ensures
        arg_fields(joined_args(fields)) == fields,
    decreases fields.len(),
{
    if fields.len() > 1 {
        let tail = fields.skip(1);
        assert forall|n: int| 0 <= n < tail.len() - 1 implies sealed_by(
            #[trigger] tail[n],
            arg_separator(),
        ) by {
            assert(tail[n] == fields[n + 1]);
        }
        lemma_args_round_trip(tail);
        lemma_sealed_prefix(fields[0], arg_separator(), joined_args(tail));
    }
}

/// Adding one more argument to joined arguments writes the separator in
/// front of it, unless it is the first.
pub proof fn lemma_joined_args_push(fields: Seq<Seq<char>>, value: Seq<char>)
    ensures
        joined_args(fields.push(value)) == if fields.len() == 0 {
            value
        } else {
            joined_args(fields) + arg_separator() + value
        },
    decreases fields.len(),
{
    let all = fields.push(value);
    if fields.len() == 0 {
        assert(all[0] == value);
    } else {
        let rest = fields.skip(1);
        assert(all.skip(1) =~= rest.push(value));
        assert(all[0] == fields[0]);
        lemma_joined_args_push(rest, value);
        if fields.len() == 1 {
            assert(joined_args(rest) =~= Seq::<char>::empty());
            assert(joined_args(all) =~= fields[0] + arg_separator() + value);
        } else {
            assert(joined_args(all) =~= fields[0] + arg_separator() + (joined_args(rest)
                + arg_separator() + value));
            assert(joined_args(all) =~= joined_args(fields) + arg_separator() + value);
        }
    }
}

/// A packet built from any arguments carries them joined by the argument
/// separator, empty arguments included.
pub proof fn lemma_builder_joins(packet_type: Seq<char>, values: Seq<Seq<char>>)
    ensures
        PacketView::start(packet_type).with_args(values) == (PacketView {
            packet_type,
            args: joined_args(values),
            has_args: values.len() > 0,
            arg_sep: arg_separator(),
        }),
        PacketView::start(packet_type).with_args(values).text() == packet_text(
            packet_type,
            joined_args(values),
        ),
    decreases values.len(),
{
    if values.len() > 0 {
        let before = values.drop_last();
        lemma_builder_joins(packet_type, before);
        lemma_joined_args_push(before, values.last());
        assert(before.push(values.last()) =~= values);
    }
}

} // verus!
