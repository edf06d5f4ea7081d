use vstd::prelude::*;
use vstd::slice::slice_subrange;

verus! {

/// Milliseconds elapsed since the Unix epoch, read from the system clock
/// through `std::time::SystemTime::now`. Nothing is promised about the value:
/// the clock may jump in either direction between two calls. A clock set
/// before the epoch reads as zero.
#[verifier::external_body]
pub fn get_elapsed_milis() -> (now: u128) {
    std::time::SystemTime::now()
        .duration_since(std::time::SystemTime::UNIX_EPOCH)
        .unwrap_or_default()
        .as_millis()
}

/// One byte drawn from the thread-local generator of the `rand` crate,
/// through `rand::random`. Every value of a byte can come back.
#[verifier::external_body]
pub(crate) fn random_byte() -> (byte: u8) {
    rand::random::<u8>()
}


/// The three bytes that part data from its padding.
pub open spec fn padded_sig() -> Seq<u8> {
    seq![69u8, 69u8, 96u8]
}

/// The state of the scan for the signature after `k` bytes were read: how
/// many bytes of the signature were matched in a row, and the index noted
/// for the start of that run (zero while none is noted).
///
/// The scan compares each byte with the signature byte that is due. A byte
/// that differs starts the scan afresh with the next byte. A byte that
/// matches is counted, and its index is noted while the noted index is
/// zero. Once all three bytes were counted the scan stops.
pub open spec fn scan_sig(data: Seq<u8>, k: nat) -> (nat, nat)
    decreases k,
{
    if k == 0 || k > data.len() {
        (0, 0)
    } else {
        let (matched, start) = scan_sig(data, (k - 1) as nat);
        if matched >= 3 {
            (matched, start)
        } else if data[k - 1] == padded_sig()[matched as int] {
            (
                matched + 1,
                if start == 0 {
                    (k - 1) as nat
                } else {
                    start
                },
            )
        } else {
            (0, 0)
        }
    }
}

/// How many leading bytes are kept when the padding is cut off: all of
/// them while the scan has noted no index, else the bytes in front of the
/// noted index.
pub open spec fn unpadded_len(data: Seq<u8>) -> nat {
    let (_, start) = scan_sig(data, data.len());
    if start == 0 {
        data.len()
    } else {
        start
    }
}

/// The data followed by the signature and then by random bytes up to
/// `min_len` bytes in all. Data that with its signature is already that
/// long gets the signature alone.
pub fn basic_pad(data: &[u8], min_len: usize) -> (output: Vec<u8>)
    requires
        data@.len() + 3 <= usize::MAX,
    ensures
        output@.len() == if data@.len() + 3 < min_len {
            min_len as int
        } else {
            (data@.len() + 3) as int
        },
        output@.take((data@.len() + 3) as int) == data@ + padded_sig(),
{
    let mut output: Vec<u8> = Vec::new();
    let mut i: usize = 0;
    while i < data.len()
        invariant
            i <= data.len(),
            output@ == data@.take(i as int),
        decreases data.len() - i,
    {
        output.push(data[i]);
        i = i + 1;
    }
    output.push(69);
    output.push(69);
    output.push(96);
    let total_len: usize = data.len() + 3;
    let ghost head = output@;
    while output.len() < min_len
        invariant
            output@.len() >= total_len,
            total_len == head.len(),
            output@.len() <= min_len || output@.len() == total_len,
            output@.take(total_len as int) == head,
        decreases min_len - output.len(),
    {
        output.push(random_byte());
    }
    output
}

/// Cuts the padding off: the leading `unpadded_len` bytes of the data.
pub fn basic_unpad<'a>(data: &'a [u8]) -> (kept: &'a [u8])
    ensures
        kept@ == data@.take(unpadded_len(data@) as int),
{
    let mut next_match_idx: usize = 0;
    let mut current_match: usize = 0;
    let mut i: usize = 0;
    while i < data.len() && next_match_idx < 3
        invariant
            i <= data.len(),
            next_match_idx <= 3,
            current_match <= i,
            scan_sig(data@, i as nat) == (next_match_idx as nat, current_match as nat),
        decreases data.len() - i,
    {
        let due: u8 = if next_match_idx == 2 {
            96
        } else {
            69
        };
        if data[i] == due {
            if current_match == 0 {
                current_match = i;
            }
            next_match_idx = next_match_idx + 1;
        } else {
            next_match_idx = 0;
            current_match = 0;
        }
        i = i + 1;
    }
    proof {
        lemma_scan_stops(data@, i as nat, data@.len());
    }
    if current_match == 0 {
        data
    } else {
        let kept = slice_subrange(data, 0, current_match);
        kept
    }
}

/// A scan that has read all the data, or has counted the whole signature,
/// is in the state in which it ends.
pub proof fn lemma_scan_stops(data: Seq<u8>, k: nat, end: nat)
    requires
        k <= end <= data.len(),
        k == data.len() || scan_sig(data, k).0 >= 3,
    ensures
        scan_sig(data, end) == scan_sig(data, k),
    decreases end - k,
{
    if k < end {
        lemma_scan_stops(data, k, (end - 1) as nat);
    }
}

/// Padding and then cutting the padding off gives back the data, for data
/// that is not empty and holds no byte equal to the first byte of the
/// signature, whatever the padding that follows the signature.
pub proof fn lemma_unpad_pad(data: Seq<u8>, padding: Seq<u8>)
    requires
        data.len() >= 1,
        forall|i: int| 0 <= i < data.len() ==> data[i] != 69,
    ensures
        unpadded_len(data + padded_sig() + padding) == data.len(),
        (data + padded_sig() + padding).take(
            unpadded_len(data + padded_sig() + padding) as int,
        ) == data,
{
    let padded = data + padded_sig() + padding;
    let n = data.len();
    lemma_scan_plain(padded, n);
    assert(scan_sig(padded, n + 1) == (1nat, n));
    assert(scan_sig(padded, n + 2) == (2nat, n));
    lemma_scan_stops(padded, n + 3, padded.len());
}

/// While no byte read equals the first byte of the signature the scan has
/// matched nothing.
proof fn lemma_scan_plain(data: Seq<u8>, k: nat)
    requires
        k <= data.len(),
        forall|i: int| 0 <= i < k ==> data[i] != 69,
    ensures
        scan_sig(data, k) == (0nat, 0nat),
    decreases k,
{
    if k > 0 {
        lemma_scan_plain(data, (k - 1) as nat);
    }
}

} // verus!
