use vstd::prelude::*;
use crate::error::PDF2ImageError;

verus! {

/// The text that `bytes` encode as UTF-8, or `None` where they are not valid UTF-8.
pub uninterp spec fn utf8_text(bytes: Seq<u8>) -> Option<Seq<char>>;

/// The whitespace-separated words of `text`, in their order.
pub uninterp spec fn words_of(text: Seq<char>) -> Seq<Seq<char>>;

/// Whether every byte is ASCII.
pub open spec fn all_ascii(bytes: Seq<u8>) -> bool {
    forall|i: int| 0 <= i < bytes.len() ==> #[trigger] bytes[i] < 128
}

/// The characters whose codes are the given bytes.
pub open spec fn ascii_text(bytes: Seq<u8>) -> Seq<char> {
    bytes.map_values(|b: u8| b as char)
}

/// Relies on `std::str::from_utf8`: the text on valid UTF-8, an error otherwise; ASCII
/// bytes are valid UTF-8 and encode the characters of the same codes.
#[verifier::external_body]
fn decode_utf8(bytes: &[u8]) -> (r: Result<&str, std::str::Utf8Error>)
    ensures
        match r {
            Ok(s) => utf8_text(bytes@) == Some(s@),
            Err(_) => utf8_text(bytes@) is None,
        },
        all_ascii(bytes@) ==> (r is Ok && r->Ok_0@ == ascii_text(bytes@)),
{
    std::str::from_utf8(bytes)
}

/// Relies on `str::split_whitespace`, collected into a `Vec`: the words in their order.
#[verifier::external_body]
fn words(text: &str) -> (r: Vec<&str>)
    ensures
        word_texts(r@) == words_of(text@),
{
    text.split_whitespace().collect()
}

/// The texts of a sequence of words.
pub open spec fn word_texts(ws: Seq<&str>) -> Seq<Seq<char>> {
    ws.map_values(|w: &str| w@)
}

/// The last of a sequence of words, if there is one.
pub open spec fn last_of(ws: Seq<Seq<char>>) -> Option<Seq<char>> {
    if ws.len() == 0 {
        None
    } else {
        Some(ws.last())
    }
}

/// The last whitespace-separated word of `text`, or `None` where it holds only whitespace.
pub open spec fn last_word(text: Seq<char>) -> Option<Seq<char>> {
    last_of(words_of(text))
}

/// The page count that the words of a `Pages:` line give: the last word read as a `u32`.
pub open spec fn page_count_of_spec(ws: Seq<Seq<char>>) -> Option<u32> {
    match last_of(ws) {
        None => None,
        Some(w) => parsed_u32(w),
    }
}

/// The flag that the words of an `Encrypted:` line give: the last word, `yes` or `no`.
pub open spec fn encryption_of_spec(ws: Seq<Seq<char>>) -> Option<bool> {
    match last_of(ws) {
        None => None,
        Some(w) => if w == "yes"@ {
            Some(true)
        } else if w == "no"@ {
            Some(false)
        } else {
            None
        },
    }
}

/// Whether `c` is an ASCII decimal digit.
pub open spec fn is_digit(c: char) -> bool {
    '0' <= c && c <= '9'
}

/// The value of a string of decimal digits.
pub open spec fn digits_value(s: Seq<char>) -> int
    decreases s.len(),
{
    if s.len() == 0 {
        0
    } else {
        digits_value(s.drop_last()) * 10 + (s.last() as int - '0' as int)
    }
}

/// The part of `s` after an optional leading `+`.
pub open spec fn unsigned_digits(s: Seq<char>) -> Seq<char> {
    if s.len() > 0 && s[0] == '+' {
        s.drop_first()
    } else {
        s
    }
}

/// Whether every character of `s` is a decimal digit.
pub open spec fn all_digits(s: Seq<char>) -> bool {
    forall|i: int| 0 <= i < s.len() ==> is_digit(#[trigger] s[i])
}

/// What `u32`'s `FromStr` reads: an optional `+`, then one or more decimal digits whose
/// value fits in a `u32`.
pub open spec fn parsed_u32(s: Seq<char>) -> Option<u32> {
    let d = unsigned_digits(s);
    if d.len() > 0 && all_digits(d) && digits_value(d) <= u32::MAX {
        Some(digits_value(d) as u32)
    } else {
        None
    }
}

proof fn lemma_prefix_value(t: Seq<char>, j: int)
    requires
        0 <= j <= t.len(),
        forall|i: int| 0 <= i < t.len() ==> is_digit(#[trigger] t[i]),
    ensures
        0 <= digits_value(t.subrange(0, j)) <= digits_value(t),
    decreases t.len() - j,
{
    if j < t.len() {
        lemma_prefix_value(t, j + 1);
        assert(t.subrange(0, j + 1).drop_last() =~= t.subrange(0, j));
    } else {
        assert(t.subrange(0, j) =~= t);
    }
    lemma_value_nonneg(t.subrange(0, j));
}

proof fn lemma_value_nonneg(t: Seq<char>)
    requires
        forall|i: int| 0 <= i < t.len() ==> is_digit(#[trigger] t[i]),
    ensures
        digits_value(t) >= 0,
    decreases t.len(),
{
    if t.len() > 0 {
        let u = t.drop_last();
        assert forall|i: int| 0 <= i < u.len() implies is_digit(#[trigger] u[i]) by {
            assert(u[i] == t[i]);
        }
        lemma_value_nonneg(u);
    }
}

/// Reads a `u32` as its `FromStr` does: an optional `+`, then decimal digits within range.
fn parse_u32(s: &str) -> (r: Option<u32>)
    ensures
        r == parsed_u32(s@),
{
    let n = s.unicode_len();
    let mut start: usize = 0;
    if n > 0 && s.get_char(0) == '+' {
        start = 1;
    }
    let ghost d = s@.subrange(start as int, n as int);
    assert(d =~= unsigned_digits(s@));
    if start == n {
        return None;
    }
    let mut v: u64 = 0;
    let mut i: usize = start;
    assert(d.subrange(0, 0) =~= Seq::<char>::empty());
    while i < n
        invariant
            start < n,
            start <= i <= n,
            n == s@.len(),
            d == s@.subrange(start as int, n as int),
            d == unsigned_digits(s@),
            forall|k: int| 0 <= k < i - start ==> is_digit(#[trigger] d[k]),
            v == digits_value(d.subrange(0, i - start)),
            v <= u32::MAX,
        decreases n - i,
    {
        let c = s.get_char(i);
        if !('0' <= c && c <= '9') {
            assert(!is_digit(d[i - start]));
            assert(!all_digits(d));
            return None;
        }
        let dv = (c as u32 - '0' as u32) as u64;
        assert(d.subrange(0, i - start + 1).drop_last() =~= d.subrange(0, i - start));
        v = v * 10 + dv;
        if v > 4294967295u64 {
            proof {
                if all_digits(d) {
                    lemma_prefix_value(d, i - start + 1);
                }
            }
            return None;
        }
        i = i + 1;
    }
    assert(d.subrange(0, n - start) =~= d);
    Some(v as u32)
}

/// The bytes of `Pages:`.
pub open spec fn pages_label() -> Seq<u8> {
    seq![80u8, 97u8, 103u8, 101u8, 115u8, 58u8]
}

/// The bytes of `Encrypted:`.
pub open spec fn encrypted_label() -> Seq<u8> {
    seq![69u8, 110u8, 99u8, 114u8, 121u8, 112u8, 116u8, 101u8, 100u8, 58u8]
}

/// The length of the first line of `s`: the bytes before its first newline, or all of them.
pub open spec fn line_len(s: Seq<u8>) -> nat
    decreases s.len(),
{
    if s.len() == 0 {
        0
    } else if s[0] == 10u8 {
        0
    } else {
        1 + line_len(s.drop_first())
    }
}

/// The first of the newline-separated lines of `s` that starts with `label`.
pub open spec fn find_line(s: Seq<u8>, label: Seq<u8>) -> Option<Seq<u8>>
    decreases s.len(),
{
    let e = line_len(s);
    if label.is_prefix_of(s.subrange(0, e as int)) {
        Some(s.subrange(0, e as int))
    } else if e >= s.len() {
        None
    } else {
        find_line(s.subrange((e + 1) as int, s.len() as int), label)
    }
}

/// What reading `pdfinfo`'s report yields.
pub enum InfoOutcome {
    /// The page count and whether the document is encrypted.
    Info(u32, bool),
    /// A labelled line is not valid UTF-8.
    NotText,
    /// No usable `Pages:` line.
    NoPageCount,
    /// No usable `Encrypted:` line.
    NoEncryptionStatus,
}

/// The page count that a report gives: `None` where no usable `Pages:` line comes first,
/// `Some(Err(()))` where the line is not UTF-8.
pub open spec fn page_count_field(out: Seq<u8>) -> Option<Result<u32, ()>> {
    match find_line(out, pages_label()) {
        None => None,
        Some(l) => match utf8_text(l) {
            None => Some(Err(())),
            Some(t) => match page_count_of_spec(words_of(t)) {
                None => None,
                Some(n) => Some(Ok(n)),
            },
        },
    }
}

/// The encryption flag that a report gives, in the same form as `page_count_field`.
pub open spec fn encrypted_field(out: Seq<u8>) -> Option<Result<bool, ()>> {
    match find_line(out, encrypted_label()) {
        None => None,
        Some(l) => match utf8_text(l) {
            None => Some(Err(())),
            Some(t) => match encryption_of_spec(words_of(t)) {
                None => None,
                Some(e) => Some(Ok(e)),
            },
        },
    }
}

/// The outcome of reading a report: the page count is read first, then the encryption flag.
pub open spec fn info_spec(out: Seq<u8>) -> InfoOutcome {
    match page_count_field(out) {
        None => InfoOutcome::NoPageCount,
        Some(Err(())) => InfoOutcome::NotText,
        Some(Ok(n)) => match encrypted_field(out) {
            None => InfoOutcome::NoEncryptionStatus,
            Some(Err(())) => InfoOutcome::NotText,
            Some(Ok(e)) => InfoOutcome::Info(n, e),
        },
    }
}

proof fn lemma_line_len(s: Seq<u8>, m: int)
    requires
        0 <= m <= s.len(),
        forall|k: int| 0 <= k < m ==> s[k] != 10u8,
        m == s.len() || s[m] == 10u8,
    ensures
        line_len(s) == m,
    decreases m,
{
    if m > 0 {
        let t = s.drop_first();
        assert forall|k: int| 0 <= k < m - 1 implies t[k] != 10u8 by {
            assert(t[k] == s[k + 1]);
        }
        lemma_line_len(t, m - 1);
    }
}

fn str_eq(a: &str, b: &str) -> (r: bool)
    ensures
        r == (a@ == b@),
{
    let n = a.unicode_len();
    if n != b.unicode_len() {
        return false;
    }
    let mut i: usize = 0;
    while i < n
        invariant
            n == a@.len(),
            n == b@.len(),
            i <= n,
            forall|k: int| 0 <= k < i ==> a@[k] == b@[k],
        decreases n - i,
    {
        if a.get_char(i) != b.get_char(i) {
            return false;
        }
        i = i + 1;
    }
    assert(a@ =~= b@);
    true
}

/// The page count that the words of a `Pages:` line give: the last word read as a `u32`,
/// or `None` where there is no word or it is no such number.
pub fn page_count_of_words(ws: &Vec<&str>) -> (r: Option<u32>)
    ensures
        r == page_count_of_spec(word_texts(ws@)),
{
    if ws.len() == 0 {
        return None;
    }
    let w: &str = ws[ws.len() - 1];
    assert(word_texts(ws@).last() == w@);
    parse_u32(w)
}

/// The encryption flag that the words of an `Encrypted:` line give: `yes` or `no` as the
/// last word, else `None`.
pub fn encryption_of_words(ws: &Vec<&str>) -> (r: Option<bool>)
    ensures
        r == encryption_of_spec(word_texts(ws@)),
{
    if ws.len() == 0 {
        return None;
    }
    let w: &str = ws[ws.len() - 1];
    assert(word_texts(ws@).last() == w@);
    if str_eq(w, "yes") {
        Some(true)
    } else if str_eq(w, "no") {
        Some(false)
    } else {
        None
    }
}

/// The first line of `out` that starts with `label`, if any.
fn labelled_line(out: &[u8], label: &[u8]) -> (r: Option<Vec<u8>>)
    ensures
        match r {
            Some(l) => find_line(out@, label@) == Some(l@),
            None => find_line(out@, label@) is None,
        },
{
    let n = out.len();
    let mut start: usize = 0;
    assert(out@.subrange(0, n as int) =~= out@);
    loop
        invariant
            n == out@.len(),
            start <= n,
            find_line(out@, label@) == find_line(out@.subrange(start as int, n as int), label@),
        decreases n - start,
    {
        let ghost s = out@.subrange(start as int, n as int);
        let mut e: usize = start;
        while e < n && out[e] != 10u8
            invariant
                n == out@.len(),
                start <= e <= n,
                forall|k: int| start <= k < e ==> out@[k] != 10u8,
            decreases n - e,
        {
            e = e + 1;
        }
        proof {
            lemma_line_len(s, e - start);
        }
        let ghost line = s.subrange(0, e - start);
        let mut matches = label.len() <= e - start;
        if matches {
            let mut k: usize = 0;
            while k < label.len()
                invariant
                    n == out@.len(),
                    start <= e <= n,
                    label@.len() <= e - start,
                    k <= label@.len(),
                    matches <==> forall|j: int| 0 <= j < k ==> label@[j] == out@[start + j],
                decreases label.len() - k,
            {
                if label[k] != out[start + k] {
                    matches = false;
                }
                k = k + 1;
            }
        }
        assert(forall|j: int| 0 <= j < e - start ==> line[j] == out@[start + j]);
        if matches {
            assert(label@ =~= line.subrange(0, label@.len() as int));
            let mut v: Vec<u8> = Vec::new();
            let mut j: usize = start;
            while j < e
                invariant
                    n == out@.len(),
                    start <= j <= e <= n,
                    v@ =~= out@.subrange(start as int, j as int),
                decreases e - j,
            {
                v.push(out[j]);
                j = j + 1;
            }
            assert(v@ =~= line);
            return Some(v);
        }
        assert(!label@.is_prefix_of(line)) by {
            if label@.is_prefix_of(line) {
                assert forall|j: int| 0 <= j < label@.len() implies label@[j] == out@[start
                    + j] by {
                    assert(label@[j] == line.subrange(0, label@.len() as int)[j]);
                }
            }
        }
        if e >= n {
            return None;
        }
        assert(s.subrange(e - start + 1, s.len() as int) =~= out@.subrange(e + 1, n as int));
        start = e + 1;
    }
}

/// Reads the page count and the encryption flag from the report that `pdfinfo` printed.
///
/// The first line that starts with `Pages:` gives the page count as its last word, and the
/// first that starts with `Encrypted:` gives the flag as `yes` or `no`.
pub fn extract_pdf_info(out: &[u8]) -> (r: Result<(u32, bool), PDF2ImageError>)
    ensures
        match info_spec(out@) {
            InfoOutcome::Info(n, e) => r matches Ok(v) && v == (n, e),
            InfoOutcome::NotText => r matches Err(PDF2ImageError::Utf8(_)),
            InfoOutcome::NoPageCount => r matches Err(PDF2ImageError::UnableToExtractPageCount),
            InfoOutcome::NoEncryptionStatus => r matches Err(
                PDF2ImageError::UnableToExtractEncryptionStatus,
            ),
        },
{
    let pages_tag: Vec<u8> = vec![80u8, 97u8, 103u8, 101u8, 115u8, 58u8];
    assert(pages_tag@ =~= pages_label());
    let page_count = match labelled_line(out, pages_tag.as_slice()) {
        None => return Err(PDF2ImageError::UnableToExtractPageCount),
        Some(line) => match decode_utf8(line.as_slice()) {
            Err(e) => return Err(PDF2ImageError::Utf8(e)),
            Ok(text) => match page_count_of_words(&words(text)) {
                None => return Err(PDF2ImageError::UnableToExtractPageCount),
                Some(n) => n,
            },
        },
    };
    let enc_tag: Vec<u8> = vec![69u8, 110u8, 99u8, 114u8, 121u8, 112u8, 116u8, 101u8, 100u8, 58u8];
    assert(enc_tag@ =~= encrypted_label());
    let encrypted = match labelled_line(out, enc_tag.as_slice()) {
        None => return Err(PDF2ImageError::UnableToExtractEncryptionStatus),
        Some(line) => match decode_utf8(line.as_slice()) {
            Err(e) => return Err(PDF2ImageError::Utf8(e)),
            Ok(text) => match encryption_of_words(&words(text)) {
                None => return Err(PDF2ImageError::UnableToExtractEncryptionStatus),
                Some(e) => e,
            },
        },
    };
    Ok((page_count, encrypted))
}

} // verus!
