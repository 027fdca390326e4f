use crate::codec::string_from_utf8;
use crate::error::Error;
use vstd::prelude::*;
use vstd::utf8::encode_utf8;
use vstd::utf8::encode_utf8_decode_utf8;
use vstd::utf8::encode_utf8_valid_utf8;
use vstd::utf8::is_ascii_chars;
use vstd::utf8::is_ascii_chars_encode_utf8;

verus! {

/// The host's address-formatting service: it renders a canonical (binary)
/// account identity in display form.  The embedding supplies the
/// implementation; which addresses it accepts and what text it produces are
/// its own, so they appear here only as the abstract functions below.
pub trait Api {
    /// Whether the service can render this canonical identity.  Every
    /// verified implementation overrides this; a host-supplied one
    /// provides only the executable method and is trusted by the
    /// embedding that chose it.
    open spec fn human_ok(&self, canonical: Seq<u8>) -> bool {
        true
    }

    /// The display form the service produces for this canonical identity.
    open spec fn human_spec(&self, canonical: Seq<u8>) -> Seq<char> {
        Seq::empty()
    }

    /// Renders a canonical identity in display form.
    fn human_address(&self, canonical: &Vec<u8>) -> (r: Result<String, Error>)
        ensures
            match r {
                Ok(s) => self.human_ok(canonical@) && s@ == self.human_spec(canonical@),
                Err(e) => e == Error::IdentityFormatError && !self.human_ok(canonical@),
            },
    ;
}

/// An address formatter that can render no identity at all.  It stands in
/// for a host service that rejects what it is given, so the failure path
/// of a query can be exercised.
pub struct RejectApi;

impl Api for RejectApi {
    open spec fn human_ok(&self, canonical: Seq<u8>) -> bool {
        false
    }

    open spec fn human_spec(&self, canonical: Seq<u8>) -> Seq<char> {
        Seq::empty()
    }

    fn human_address(&self, canonical: &Vec<u8>) -> (r: Result<String, Error>) {
        Err(Error::IdentityFormatError)
    }
}

/// The hexadecimal digit of a value below sixteen, as an ASCII byte.
pub open spec fn spec_hex_ascii_digit(n: u8) -> u8 {
    if n < 10 {
        (48 + n) as u8
    } else {
        (87 + n) as u8
    }
}

/// The ASCII bytes of the lowercase hexadecimal form of a byte sequence.
pub open spec fn spec_hex_ascii(bytes: Seq<u8>) -> Seq<u8> {
    Seq::new(
        bytes.len() * 2,
        |i: int|
            if i % 2 == 0 {
                spec_hex_ascii_digit(bytes[i / 2] / 16)
            } else {
                spec_hex_ascii_digit(bytes[i / 2] % 16)
            },
    )
}

/// The lowercase hexadecimal form of a byte sequence.
pub open spec fn spec_hex(bytes: Seq<u8>) -> Seq<char> {
    Seq::new(bytes.len() * 2, |i: int| spec_hex_ascii(bytes)[i] as char)
}

proof fn lemma_hex_ascii(bytes: Seq<u8>)
    ensures
        is_ascii_chars(spec_hex(bytes)),
        encode_utf8(spec_hex(bytes)) == spec_hex_ascii(bytes),
{
    assert forall|i: int| 0 <= i < spec_hex(bytes).len() implies '\0' <= #[trigger] spec_hex(
        bytes,
    )[i] <= '\u{7f}' by {
        assert(spec_hex_ascii(bytes)[i] < 128);
    }
    is_ascii_chars_encode_utf8(spec_hex(bytes));
    assert(encode_utf8(spec_hex(bytes)) =~= spec_hex_ascii(bytes));
}

/// An address formatter that renders every canonical identity as lowercase
/// hexadecimal text.  It stands in for a host service in the tests.
pub struct HexApi;

fn hex_ascii_digit(n: u8) -> (r: u8)
    requires
        n < 16,
    ensures
        r == spec_hex_ascii_digit(n),
{
    if n < 10 {
        48 + n
    } else {
        87 + n
    }
}

impl Api for HexApi {
    open spec fn human_ok(&self, canonical: Seq<u8>) -> bool {
        true
    }

    open spec fn human_spec(&self, canonical: Seq<u8>) -> Seq<char> {
        spec_hex(canonical)
    }

    fn human_address(&self, canonical: &Vec<u8>) -> (r: Result<String, Error>) {
        let mut out: Vec<u8> = Vec::new();
        let mut i: usize = 0;
        while i < canonical.len()
            invariant
                i <= canonical@.len(),
                out@ =~= spec_hex_ascii(canonical@).subrange(0, 2 * i as int),
            decreases canonical@.len() - i,
        {
            let b = canonical[i];
            out.push(hex_ascii_digit(b / 16));
            out.push(hex_ascii_digit(b % 16));
            i = i + 1;
            proof {
                assert(out@ =~= spec_hex_ascii(canonical@).subrange(0, 2 * i as int));
            }
        }
        proof {
            assert(out@ =~= spec_hex_ascii(canonical@));
            lemma_hex_ascii(canonical@);
            encode_utf8_valid_utf8(spec_hex(canonical@));
        }
        match string_from_utf8(out) {
            Some(s) => {
                proof {
                    encode_utf8_decode_utf8(s@);
                    encode_utf8_decode_utf8(spec_hex(canonical@));
                }
                Ok(s)
            },
            None => {
                proof {
                    assert(false);
                }
                Err(Error::IdentityFormatError)
            },
        }
    }
}

} // verus!
