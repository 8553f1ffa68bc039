use vstd::prelude::*;

verus! {

/// The standard base64 text, with padding, of `data`.
pub uninterp spec fn base64_encoded(data: Seq<u8>) -> Seq<char>;

/// The bytes that the standard base64 text `text` stands for, or, where it
/// is no such text, the decoder's complaint.
pub uninterp spec fn base64_decoded(text: Seq<char>) -> Result<Seq<u8>, Seq<char>>;

/// The gzip stream that holds `data`, or the complaint of the compressor.
pub uninterp spec fn gzip_compressed(data: Seq<u8>) -> Result<Seq<u8>, Seq<char>>;

/// Whether the compressor, where it fails on `data`, takes the bytes and
/// fails when the stream is finished.
pub uninterp spec fn gzip_fails_at_finish(data: Seq<u8>) -> bool;

/// What the gzip stream `data` holds, or, where it is no such stream, the
/// complaint of the decompressor.
pub uninterp spec fn gzip_decompressed(data: Seq<u8>) -> Result<Seq<u8>, Seq<char>>;

/// The view of the outcome of a step that gives bytes or a complaint.
pub open spec fn outcome_view(r: Result<Vec<u8>, String>) -> Result<Seq<u8>, Seq<char>> {
    match r {
        Ok(bytes) => Ok(bytes@),
        Err(complaint) => Err(complaint@),
    }
}

/// `base64::encode`: the text depends on the bytes alone. The encoder gives
/// up only where the length of the text does not fit a `usize`, which needs
/// more bytes than a slice can hold.
#[verifier::external_body]
#[allow(deprecated)]
pub(crate) fn base64_encode(data: &[u8]) -> (text: String)
    ensures
        text@ == base64_encoded(data@),
{
    base64::encode(data)
}

/// `base64::decode`: the outcome depends on the text alone. A failure is
/// handed on as the text of the decoder's error.
#[verifier::external_body]
#[allow(deprecated)]
pub(crate) fn base64_decode(input: &str) -> (r: Result<Vec<u8>, String>)
    ensures
        outcome_view(r) == base64_decoded(input@),
{
    match base64::decode(input) {
        Ok(bytes) => Ok(bytes),
        Err(e) => Err(e.to_string()),
    }
}

/// `flate2::write::GzEncoder` at the default level, over a buffer in
/// memory, written with `write_all` and closed with `finish`: the stream
/// depends on the bytes alone. A failure is handed on as the text of the
/// encoder's error, with a mark that says whether it was `finish` that
/// failed.
#[verifier::external_body]
pub(crate) fn gzip_compress(data: &[u8]) -> (r: Result<Vec<u8>, (bool, String)>)
    ensures
        match r {
            Ok(stream) => gzip_compressed(data@) == Ok::<Seq<u8>, Seq<char>>(stream@),
            Err(failure) => gzip_compressed(data@) == Err::<Seq<u8>, Seq<char>>(failure.1@) && failure.0
                == gzip_fails_at_finish(data@),
        },
{
    let mut encoder = flate2::write::GzEncoder::new(Vec::new(), flate2::Compression::default());
    match std::io::Write::write_all(&mut encoder, data) {
        Ok(()) => match encoder.finish() {
            Ok(stream) => Ok(stream),
            Err(e) => Err((true, e.to_string())),
        },
        Err(e) => Err((false, e.to_string())),
    }
}

/// `flate2::read::GzDecoder`, read to its end: the outcome depends on the
/// bytes alone. A failure is handed on as the text of the decoder's error.
#[verifier::external_body]
pub(crate) fn gzip_decompress(data: &[u8]) -> (r: Result<Vec<u8>, String>)
    ensures
        outcome_view(r) == gzip_decompressed(data@),
{
    let mut decoder = flate2::read::GzDecoder::new(data);
    let mut content = Vec::new();
    match std::io::Read::read_to_end(&mut decoder, &mut content) {
        Ok(_) => Ok(content),
        Err(e) => Err(e.to_string()),
    }
}

/// The bytes of a step that succeeded; none for a step that failed.
pub open spec fn bytes_or_none(r: Result<Seq<u8>, Seq<char>>) -> Seq<u8> {
    match r {
        Ok(bytes) => bytes,
        Err(_) => Seq::empty(),
    }
}

/// The bytes of a step that succeeded; none for a step that failed.
pub fn unwrap_bytes(r: Result<Vec<u8>, String>) -> (bytes: Vec<u8>)
    ensures
        bytes@ == bytes_or_none(outcome_view(r)),
{
    match r {
        Ok(bytes) => bytes,
        Err(_) => Vec::new(),
    }
}

/// What compressing `data` gives: the gzip stream, or the compressor's
/// complaint behind a few words that say at which step it failed.
pub open spec fn compression_outcome(data: Seq<u8>) -> Result<Seq<u8>, Seq<char>> {
    match gzip_compressed(data) {
        Ok(stream) => Ok(stream),
        Err(complaint) => if gzip_fails_at_finish(data) {
            Err("Compression finish error: "@ + complaint)
        } else {
            Err("Compression error: "@ + complaint)
        },
    }
}

/// Compresses `data` into a gzip stream.
pub fn compress_data(data: &[u8]) -> (r: Result<Vec<u8>, String>)
    ensures
        outcome_view(r) == compression_outcome(data@),
{
    match gzip_compress(data) {
        Ok(stream) => Ok(stream),
        Err(failure) => {
            if failure.0 {
                Err(crate::text::concat2("Compression finish error: ", failure.1.as_str()))
            } else {
                Err(crate::text::concat2("Compression error: ", failure.1.as_str()))
            }
        },
    }
}

/// Reads the content back out of a gzip stream.
pub fn decompress_data(compressed: &[u8]) -> (r: Result<Vec<u8>, String>)
    ensures
        match gzip_decompressed(compressed@) {
            Ok(content) => r matches Ok(out) && out@ == content,
            Err(complaint) => r matches Err(e) && e@ == "Decompression error: "@ + complaint,
        },
{
    match gzip_decompress(compressed) {
        Ok(content) => Ok(content),
        Err(complaint) => Err(crate::text::concat2("Decompression error: ", complaint.as_str())),
    }
}

/// Whether a character is white space: whether it has the Unicode property
/// `White_Space`. These are the controls from tab to carriage return, the
/// blank, the next-line control, and the blanks and separators beyond ASCII.
pub open spec fn white_space(c: char) -> bool {
    ||| '\u{9}' <= c <= '\u{d}'
    ||| c == ' '
    ||| c == '\u{85}'
    ||| c == '\u{a0}'
    ||| c == '\u{1680}'
    ||| '\u{2000}' <= c <= '\u{200a}'
    ||| c == '\u{2028}'
    ||| c == '\u{2029}'
    ||| c == '\u{202f}'
    ||| c == '\u{205f}'
    ||| c == '\u{3000}'
}

/// Whether a character is white space.
pub fn is_white_space(c: char) -> (r: bool)
    ensures
        r == white_space(c),
{
    ('\u{9}' <= c && c <= '\u{d}') || c == ' ' || c == '\u{85}' || c == '\u{a0}' || c == '\u{1680}' || (
    '\u{2000}' <= c && c <= '\u{200a}') || c == '\u{2028}' || c == '\u{2029}' || c == '\u{202f}' || c
        == '\u{205f}' || c == '\u{3000}'
}

/// The six bits that a character of the base64 alphabet stands for: the
/// capital letters, the small letters, the digits, `+` and `/`, in this
/// order.
pub open spec fn sextet(c: char) -> Option<u8> {
    if 'A' <= c <= 'Z' {
        Some((c as int - 'A' as int) as u8)
    } else if 'a' <= c <= 'z' {
        Some((c as int - 'a' as int + 26) as u8)
    } else if '0' <= c <= '9' {
        Some((c as int - '0' as int + 52) as u8)
    } else if c == '+' {
        Some(62u8)
    } else if c == '/' {
        Some(63u8)
    } else {
        None
    }
}

/// The characters of `input` that are no white space, order kept.
pub open spec fn significant(input: Seq<char>) -> Seq<char>
    decreases input.len(),
{
    if input.len() == 0 {
        Seq::empty()
    } else if white_space(input.last()) {
        significant(input.drop_last())
    } else {
        significant(input.drop_last()).push(input.last())
    }
}

/// What of a base64 text is read: its significant characters before the
/// first `=`.
pub open spec fn symbols(input: Seq<char>) -> Seq<char> {
    let all = significant(input);
    all.subrange(0, crate::text::first_index_from(all, '=', 0))
}

/// Which characters are outside the base64 alphabet.
pub open spec fn foreign_flags(chars: Seq<char>) -> Seq<bool> {
    Seq::new(chars.len(), |i: int| sextet(chars[i]) is None)
}

/// The six-bit values of characters of the alphabet.
pub open spec fn sextets(chars: Seq<char>) -> Seq<u8> {
    Seq::new(
        chars.len(),
        |i: int|
            match sextet(chars[i]) {
                Some(v) => v,
                None => 0u8,
            },
    )
}

/// The byte `k` of the bits that `values` hold, six apiece: four sextets make
/// three bytes.
pub open spec fn packed_byte(values: Seq<u8>, k: int) -> int {
    let q = k / 3;
    if k % 3 == 0 {
        values[4 * q] * 4 + values[4 * q + 1] / 16
    } else if k % 3 == 1 {
        (values[4 * q + 1] % 16) * 16 + values[4 * q + 2] / 4
    } else {
        (values[4 * q + 2] % 4) * 64 + values[4 * q + 3]
    }
}

/// The whole bytes that `values` hold; bits that do not fill a byte are
/// dropped.
pub open spec fn packed(values: Seq<u8>) -> Seq<u8> {
    Seq::new((values.len() * 6 / 8) as nat, |k: int| packed_byte(values, k) as u8)
}

/// What a base64 text decodes to. White space is skipped, reading ends at
/// the first `=`, and a character outside the alphabet makes the text
/// invalid.
pub open spec fn plain_decoded(input: Seq<char>) -> Result<Seq<u8>, Seq<char>> {
    let chars = symbols(input);
    match crate::lookup::first_true(foreign_flags(chars)) {
        Some(i) => Err("Invalid base64 character: "@.push(chars[i])),
        None => Ok(packed(sextets(chars))),
    }
}

/// The six bits that `c` stands for.
pub fn sextet_of(c: char) -> (r: Option<u8>)
    ensures
        r == sextet(c),
{
    if 'A' <= c && c <= 'Z' {
        Some((c as u32 - 'A' as u32) as u8)
    } else if 'a' <= c && c <= 'z' {
        Some((c as u32 - 'a' as u32 + 26) as u8)
    } else if '0' <= c && c <= '9' {
        Some((c as u32 - '0' as u32 + 52) as u8)
    } else if c == '+' {
        Some(62)
    } else if c == '/' {
        Some(63)
    } else {
        None
    }
}

/// Packs six-bit values into bytes.
pub fn pack(values: &Vec<u8>) -> (out: Vec<u8>)
    requires
        forall|i: int| 0 <= i < values.len() ==> #[trigger] values[i] < 64,
    ensures
        out@ == packed(values@),
{
    let mut out: Vec<u8> = Vec::new();
    let mut buffer: u32 = 0;
    let mut bits: u32 = 0;
    let mut i: usize = 0;
    while i < values.len()
        invariant
            i <= values.len(),
            forall|j: int| 0 <= j < values.len() ==> #[trigger] values[j] < 64,
            out.len() == i * 6 / 8,
            forall|k: int| 0 <= k < out.len() ==> #[trigger] out[k] == packed_byte(values@, k) as u8,
            bits == (i * 6) % 8,
            bits == 0 ==> buffer == 0,
            bits == 6 ==> i >= 1 && buffer == values[i - 1],
            bits == 4 ==> i >= 1 && buffer == values[i - 1] % 16,
            bits == 2 ==> i >= 1 && buffer == values[i - 1] % 4,
        decreases values.len() - i,
    {
        let v = values[i] as u32;
        let ghost k = out.len() as int;
        if bits == 0 {
            buffer = v;
            bits = 6;
        } else if bits == 6 {
            assert(i % 4 == 1 && k % 3 == 0 && 4 * (k / 3) == i - 1);
            out.push((buffer * 4 + v / 16) as u8);
            buffer = v % 16;
            bits = 4;
        } else if bits == 4 {
            assert(i % 4 == 2 && k % 3 == 1 && 4 * (k / 3) + 1 == i - 1);
            out.push((buffer * 16 + v / 4) as u8);
            buffer = v % 4;
            bits = 2;
        } else {
            assert(bits == 2);
            assert(i % 4 == 3 && k % 3 == 2 && 4 * (k / 3) + 2 == i - 1);
            out.push((buffer * 64 + v) as u8);
            buffer = 0;
            bits = 0;
        }
        i += 1;
    }
    assert(out@ =~= packed(values@));
    out
}

/// Decodes a base64 text, leniently: white space is skipped, reading ends at
/// the first `=`, and bits that do not fill a byte are dropped. Only a
/// character outside the alphabet makes the text invalid.
pub fn decode(input: &str) -> (r: Result<Vec<u8>, String>)
    ensures
        outcome_view(r) == plain_decoded(input@),
{
    let cs = crate::text::chars_of(input);
    let mut all: Vec<char> = Vec::new();
    let mut i: usize = 0;
    assert(input@.subrange(0, 0) =~= Seq::<char>::empty());
    while i < cs.len()
        invariant
            i <= cs.len(),
            cs@ == input@,
            all@ == significant(input@.subrange(0, i as int)),
        decreases cs.len() - i,
    {
        assert(input@.subrange(0, i + 1).drop_last() =~= input@.subrange(0, i as int));
        if !is_white_space(cs[i]) {
            all.push(cs[i]);
        }
        i += 1;
    }
    assert(input@.subrange(0, i as int) =~= input@);
    let end = crate::text::find_char_from(&all, '=', 0);
    let ghost chars = symbols(input@);
    let ghost flags = foreign_flags(chars);
    let mut values: Vec<u8> = Vec::new();
    let mut j: usize = 0;
    while j < end
        invariant
            j <= end <= all.len(),
            chars == symbols(input@),
            chars == all@.subrange(0, end as int),
            flags == foreign_flags(chars),
            values.len() == j,
            forall|k: int| 0 <= k < j ==> !#[trigger] flags[k],
            forall|k: int| 0 <= k < j ==> #[trigger] values[k] == sextets(chars)[k],
            forall|k: int| 0 <= k < j ==> #[trigger] values[k] < 64,
        decreases end - j,
    {
        match sextet_of(all[j]) {
            Some(v) => {
                values.push(v);
            },
            None => {
                proof {
                    assert(chars[j as int] == all@[j as int]);
                    assert(flags[j as int]);
                    crate::lookup::lemma_first_true_at(flags, j as int);
                }
                let mut complaint = String::from_str("Invalid base64 character: ");
                complaint.push(all[j]);
                return Err(complaint);
            },
        }
        j += 1;
    }
    proof {
        crate::lookup::lemma_first_true_none(flags);
        assert(values@ =~= sextets(chars));
    }
    Ok(pack(&values))
}

} // verus!
