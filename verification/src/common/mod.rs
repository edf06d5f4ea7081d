use vstd::prelude::*;

pub mod json;
pub mod nanoid;
pub mod text;
pub mod ubucket;
pub mod utils;

verus! {

/// The identifier type of rooms, users and tickets.
pub type Id = nanoid::NanoId;

/// A fresh identifier, drawn at random: sixteen bytes that are the UTF-8
/// form of sixteen characters, each a letter, a digit, an underscore or a
/// hyphen.
pub fn get_new_id() -> (id: Id)
    ensures
        id@.len() == 16,
        exists|text: Seq<char>| #[trigger]
            vstd::utf8::encode_utf8(text) == id@ && text.len() == 16 && forall|i: int|
                0 <= i < 16 ==> nanoid::is_url_safe(#[trigger] text[i]),
{
    nanoid::NanoId::new()
}

} // verus!
