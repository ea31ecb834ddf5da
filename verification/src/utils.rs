//! Password hashing, statement names and the text of server errors.

use crate::backend::ErrorBody;
use crate::backend::ErrorView;
use crate::digits::hex_string;
use crate::digits::lemma_hex_is_plain;
use crate::digits::lemma_plain_bytes;
use crate::digits::lower_hex;
use crate::text::lossy_string;
use crate::text::lossy_text;
use vstd::array::array_as_slice;
use vstd::prelude::*;
use vstd::string::StringExecFns;
use vstd::utf8::encode_utf8;

verus! {

/// The MD5 digest of a byte string: what `md5::compute` returns.
pub uninterp spec fn md5_digest(data: Seq<u8>) -> Seq<u8>;

/// `md5::compute`: the sixteen bytes of the MD5 digest of `data`.
#[verifier::external_body]
pub(crate) fn md5_compute(data: &[u8]) -> (r: [u8; 16])
    ensures
        r@ == md5_digest(data@),
{
    md5::compute(data).0
}

/// The digest of `data` in lower-case hexadecimal.
pub open spec fn md5_hex(data: Seq<u8>) -> Seq<char> {
    lower_hex(md5_digest(data))
}

/// The answer to an MD5 password request: `md5`, then the hexadecimal
/// digest of (the hexadecimal digest of password and user name) and the
/// salt.
pub open spec fn md5_hash_text(user: Seq<char>, password: Seq<char>, salt: Seq<u8>) -> Seq<char> {
    seq!['m', 'd', '5'] + md5_hex(
        encode_utf8(md5_hex(encode_utf8(password) + encode_utf8(user))) + salt,
    )
}

/// The name under which a query text is prepared: `stmt_`, then the
/// hexadecimal digest of the text.
pub open spec fn statement_name_text(query: Seq<char>) -> Seq<char> {
    seq!['s', 't', 'm', 't', '_'] + md5_hex(encode_utf8(query))
}

/// Hashes a password for the server's MD5 challenge.
pub fn md5_hash(user: &str, password: &str, salt: &[u8; 4]) -> (r: String)
    ensures
        r@ == md5_hash_text(user@, password@, salt@),
        r@.len() == 35,
        encode_utf8(r@).len() == 35,
        !encode_utf8(r@).contains(0u8),
{
    let mut joined: Vec<u8> = Vec::new();
    joined.extend_from_slice(password.as_bytes());
    joined.extend_from_slice(user.as_bytes());
    let inner = md5_compute(joined.as_slice());
    let inner_hex = hex_string(array_as_slice(&inner));
    let mut salted: Vec<u8> = Vec::new();
    salted.extend_from_slice(inner_hex.as_str().as_bytes());
    salted.extend_from_slice(array_as_slice(salt));
    let outer = md5_compute(salted.as_slice());
    let outer_hex = hex_string(array_as_slice(&outer));
    proof {
        reveal_strlit("md5");
    }
    let mut r = String::from_str("md5");
    r.append(outer_hex.as_str());
    proof {
        assert("md5"@ =~= seq!['m', 'd', '5']);
        assert(joined@ =~= encode_utf8(password@) + encode_utf8(user@));
        assert(salted@ =~= encode_utf8(inner_hex@) + salt@);
        lemma_hex_is_plain(outer@);
        lemma_plain_bytes(r@);
    }
    r
}

/// Names the prepared statement of a query text.
pub fn statement_name(query: &str) -> (r: String)
    ensures
        r@ == statement_name_text(query@),
        r@.len() == 37,
        encode_utf8(r@).len() == 37,
        !encode_utf8(r@).contains(0u8),
{
    let digest = md5_compute(query.as_bytes());
    let hex = hex_string(array_as_slice(&digest));
    proof {
        reveal_strlit("stmt_");
    }
    let mut r = String::from_str("stmt_");
    r.append(hex.as_str());
    proof {
        assert("stmt_"@ =~= seq!['s', 't', 'm', 't', '_']);
        lemma_hex_is_plain(digest@);
        lemma_plain_bytes(r@);
    }
    r
}

/// The texts in `lines`, each after the first behind a line feed.
pub open spec fn joined_lines(lines: Seq<Seq<char>>) -> Seq<char>
    decreases lines.len(),
{
    if lines.len() == 0 {
        Seq::empty()
    } else if lines.len() == 1 {
        lines[0]
    } else {
        joined_lines(lines.drop_last()) + seq!['\n'] + lines.last()
    }
}

/// The lines of an error: every value as text, malformed bytes replaced,
/// and a last line that says why reading stopped, if it did.
pub open spec fn error_lines(err: ErrorView) -> Seq<Seq<char>> {
    let texts = Seq::new(err.values.len(), |i: int| lossy_text(err.values[i]));
    match err.failure {
        Some(why) => texts.push(
            seq![
                'E',
                'r',
                'r',
                'o',
                'r',
                ' ',
                'p',
                'a',
                'r',
                's',
                'i',
                'n',
                'g',
                ' ',
                'e',
                'r',
                'r',
                'o',
                'r',
                ' ',
                'f',
                'i',
                'e',
                'l',
                'd',
                ':',
                ' ',
            ] + why,
        ),
        None => texts,
    }
}

/// The message of a server error: its fields, one per line.
pub fn error_to_string(err: &ErrorBody) -> (r: String)
    ensures
        r@ == joined_lines(error_lines(err@)),
{
    let mut out = String::new();
    let ghost mut lines: Seq<Seq<char>> = Seq::empty();
    let mut i: usize = 0;
    while i < err.values.len()
        invariant
            i <= err.values@.len(),
            lines == Seq::new(i as nat, |j: int| lossy_text(err@.values[j])),
            out@ == joined_lines(lines),
        decreases err.values.len() - i,
    {
        let text = lossy_string(err.values[i].as_slice());
        proof {
            reveal_strlit("\n");
            assert("\n"@ =~= seq!['\n']);
        }
        if i > 0 {
            out.append("\n");
        }
        out.append(text.as_str());
        proof {
            let next = lines.push(text@);
            assert(next.drop_last() =~= lines);
            assert(next =~= Seq::new((i + 1) as nat, |j: int| lossy_text(err@.values[j])));
            if i == 0 {
                assert(out@ =~= text@);
            }
            lines = next;
        }
        i = i + 1;
    }
    proof {
        assert(lines =~= Seq::new(err@.values.len(), |j: int| lossy_text(err@.values[j])));
    }
    match &err.failure {
        Some(why) => {
            proof {
                reveal_strlit("\n");
                reveal_strlit("Error parsing error field: ");
                assert("\n"@ =~= seq!['\n']);
            }
            let mut line = String::from_str("Error parsing error field: ");
            line.append(why.as_str());
            if i > 0 {
                out.append("\n");
            }
            out.append(line.as_str());
            proof {
                let next = lines.push(line@);
                assert(next.drop_last() =~= lines);
                assert(line@ =~= error_lines(err@).last());
                assert(next =~= error_lines(err@));
                if i == 0 {
                    assert(out@ =~= line@);
                }
            }
        },
        None => {},
    }
    out
}

} // verus!
