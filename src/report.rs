//! The text that the search hands to its progress sink.
use vstd::prelude::*;
use vstd::string::*;
use sha2::Digest;
use crate::text::{decimal, encode_hex, format_en, grouped, hex_text, push_decimal};

verus! {

/// The SHA-256 digest of `data`.
pub uninterp spec fn sha256_of(data: Seq<u8>) -> Seq<u8>;

/// Relies on `sha2::Sha256::digest`: the SHA-256 digest of the bytes, which
/// depends on them alone.
#[verifier::external_body]
fn sha256(data: &[u8; 32]) -> (r: [u8; 32])
    ensures
        r@ == sha256_of(data@),
{
    sha2::Sha256::digest(data).into()
}

/// The progress line printed before each dispatch.
pub open spec fn progress_text(
    dispatch_count: nat,
    input: Seq<u8>,
    elapsed: Seq<char>,
    total_hashes: nat,
    hashrate: nat,
) -> Seq<char> {
    "dispatch: "@ + decimal(dispatch_count) + ", start: "@ + hex_text(input) + ", elapsed: "@
        + elapsed + ", hashes: "@ + grouped(total_hashes) + ", hashrate: "@ + grouped(hashrate)
        + " H/s"@
}

/// The lines that report a winner: the input, its digest and the time taken.
pub open spec fn found_text(winner: Seq<u8>, digest: Seq<u8>, elapsed: Seq<char>) -> Seq<
    Seq<char>,
> {
    seq![
        "Result:"@,
        "  input: "@ + hex_text(winner),
        "  sha256: "@ + hex_text(digest),
        "  elapsed: "@ + elapsed,
    ]
}

/// The progress line: dispatches so far, the next base input in hexadecimal,
/// the time taken (`elapsed`, already rendered), and the hash count and rate
/// with their digits grouped.
pub fn progress_line(
    dispatch_count: u64,
    input: &[u8; 32],
    elapsed: &str,
    total_hashes: u64,
    hashrate: u64,
) -> (r: String)
    ensures
        r@ == progress_text(
            dispatch_count as nat,
            input@,
            elapsed@,
            total_hashes as nat,
            hashrate as nat,
        ),
{
    let mut out = String::new();
    out.append("dispatch: ");
    push_decimal(&mut out, dispatch_count);
    out.append(", start: ");
    let hex = encode_hex(input);
    out.append(hex.as_str());
    out.append(", elapsed: ");
    out.append(elapsed);
    out.append(", hashes: ");
    let hashes = format_en(total_hashes);
    out.append(hashes.as_str());
    out.append(", hashrate: ");
    let rate = format_en(hashrate);
    out.append(rate.as_str());
    out.append(" H/s");
    proof {
        assert(out@ =~= progress_text(
            dispatch_count as nat,
            input@,
            elapsed@,
            total_hashes as nat,
            hashrate as nat,
        ));
    }
    out
}

fn prefixed(prefix: &str, rest: &str) -> (r: String)
    ensures
        r@ == prefix@ + rest@,
{
    let mut out = String::from_str(prefix);
    out.append(rest);
    out
}

/// The report of a winner, given its digest.
pub fn found_lines_with_digest(winner: &[u8; 32], digest: &[u8; 32], elapsed: &str) -> (r: Vec<
    String,
>)
    ensures
        r@.len() == 4,
        forall|i: int| 0 <= i < 4 ==> r@[i]@ == found_text(winner@, digest@, elapsed@)[i],
{
    let mut lines: Vec<String> = Vec::new();
    lines.push(String::from_str("Result:"));
    let w = encode_hex(winner);
    lines.push(prefixed("  input: ", w.as_str()));
    let d = encode_hex(digest);
    lines.push(prefixed("  sha256: ", d.as_str()));
    lines.push(prefixed("  elapsed: ", elapsed));
    lines
}

/// The report of a winner: its input, the SHA-256 digest of that input, and
/// the time taken (`elapsed`, already rendered).
pub fn found_lines(winner: &[u8; 32], elapsed: &str) -> (r: Vec<String>)
    ensures
        r@.len() == 4,
        forall|i: int|
            0 <= i < 4 ==> r@[i]@ == found_text(winner@, sha256_of(winner@), elapsed@)[i],
{
    let digest = sha256(winner);
    found_lines_with_digest(winner, &digest, elapsed)
}

} // verus!
