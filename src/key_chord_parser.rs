use vstd::prelude::*;
use crate::keys::{key_code, named_key};

verus! {

/// What `str::trim` makes of a string.
pub uninterp spec fn trim_of(s: Seq<char>) -> Seq<char>;

/// What `str::to_lowercase` makes of a string.
pub uninterp spec fn lower_of(s: Seq<char>) -> Seq<char>;

/// Relies on `str::trim`: the result is the input without its leading and
/// trailing white space, and depends on the input's characters alone.
#[verifier::external_body]
fn trim_text(s: &str) -> (r: &str)
    ensures
        r@ == trim_of(s@),
{
    s.trim()
}

/// Relies on `str::to_lowercase`: the result depends on the input's
/// characters alone.
#[verifier::external_body]
fn lowercase(s: &str) -> (r: String)
    ensures
        r@ == lower_of(s@),
{
    s.to_lowercase()
}

/// The pieces of a chord text between its `+` signs, in order. A text with
/// no `+` is one piece; an empty text is one empty piece.
pub open spec fn split_on_plus(s: Seq<char>) -> Seq<Seq<char>>
    decreases s.len(),
{
    if s.len() == 0 {
        seq![Seq::<char>::empty()]
    } else {
        let prev = split_on_plus(s.drop_last());
        if s.last() == '+' {
            prev.push(Seq::<char>::empty())
        } else {
            prev.update(prev.len() - 1, prev.last().push(s.last()))
        }
    }
}

/// The form in which a piece of a chord text is looked up: trimmed, then
/// lower case.
pub open spec fn canonical_token(tok: Seq<char>) -> Seq<char> {
    lower_of(trim_of(tok))
}

/// The key codes of a list of pieces, in order, or the canonical form of the
/// first piece that names no key.
pub open spec fn parse_tokens(toks: Seq<Seq<char>>) -> Result<Seq<i32>, Seq<char>>
    decreases toks.len(),
{
    if toks.len() == 0 {
        Ok(Seq::<i32>::empty())
    } else {
        match parse_tokens(toks.drop_last()) {
            Err(e) => Err(e),
            Ok(codes) => match named_key(canonical_token(toks.last())) {
                Some(c) => Ok(codes.push(c)),
                None => Err(canonical_token(toks.last())),
            },
        }
    }
}

/// The meaning of a chord text: its key codes in the order written, or the
/// first token that names no key.
pub open spec fn parse_chord(s: Seq<char>) -> Result<Seq<i32>, Seq<char>> {
    parse_tokens(split_on_plus(s))
}

/// Why a chord text was refused.
#[derive(Debug, Clone, PartialEq, Eq)]
pub enum ChordError {
    /// The token (trimmed, lower case) names no known key.
    InvalidChord(String),
}

/// Turns chord texts such as `"Ctrl + Shift + Z"` into key codes.
pub struct KeyChordParser {}

/// Once a prefix of a list of pieces fails, every longer prefix fails with
/// the same token.
proof fn lemma_parse_error_persists(toks: Seq<Seq<char>>, k: int, e: Seq<char>, m: int)
    requires
        0 <= k <= m <= toks.len(),
        parse_tokens(toks.subrange(0, k)) == Err::<Seq<i32>, Seq<char>>(e),
    ensures
        parse_tokens(toks.subrange(0, m)) == Err::<Seq<i32>, Seq<char>>(e),
    decreases m - k,
{
    if m > k {
        lemma_parse_error_persists(toks, k, e, m - 1);
        assert(toks.subrange(0, m).drop_last() =~= toks.subrange(0, m - 1));
    }
}

/// Two lists of pieces that agree piece by piece once trimmed and put in
/// lower case give the same codes, or fail on the same token.
proof fn lemma_parse_tokens_canonical(a: Seq<Seq<char>>, b: Seq<Seq<char>>)
    requires
        a.len() == b.len(),
        forall|i: int| 0 <= i < a.len() ==> canonical_token(#[trigger] a[i]) == canonical_token(b[i]),
    ensures
        parse_tokens(a) == parse_tokens(b),
    decreases a.len(),
{
    if a.len() > 0 {
        assert forall|i: int| 0 <= i < a.drop_last().len() implies
            canonical_token(#[trigger] a.drop_last()[i]) == canonical_token(b.drop_last()[i]) by {
            assert(a.drop_last()[i] == a[i]);
            assert(b.drop_last()[i] == b[i]);
        }
        lemma_parse_tokens_canonical(a.drop_last(), b.drop_last());
        assert(canonical_token(a.last()) == canonical_token(b.last()));
    }
}

/// Parsing ignores case and the white space around each key name: two chord
/// texts with as many `+`-separated pieces, which agree piece by piece once
/// each piece is trimmed and put in lower case, parse alike.
pub proof fn lemma_parse_ignores_case_and_spacing(s: Seq<char>, t: Seq<char>)
    requires
        split_on_plus(s).len() == split_on_plus(t).len(),
        forall|i: int| 0 <= i < split_on_plus(s).len() ==>
            canonical_token(#[trigger] split_on_plus(s)[i]) == canonical_token(split_on_plus(t)[i]),
    ensures
        parse_chord(s) == parse_chord(t),
{
    lemma_parse_tokens_canonical(split_on_plus(s), split_on_plus(t));
}

/// Cuts a chord text into the pieces between its `+` signs.
fn split_pieces<'a>(key_chord: &'a str) -> (r: Vec<&'a str>)
    ensures
        r@.len() == split_on_plus(key_chord@).len(),
        forall|k: int| 0 <= k < r@.len() ==> #[trigger] r@[k]@ == split_on_plus(key_chord@)[k],
{
    let ghost s = key_chord@;
    let n = key_chord.unicode_len();
    let mut pieces: Vec<&'a str> = Vec::new();
    let mut start: usize = 0;
    let mut i: usize = 0;
    while i < n
        invariant
            n == s.len(),
            s == key_chord@,
            start <= i <= n,
            split_on_plus(s.subrange(0, i as int)).len() == pieces@.len() + 1,
            forall|k: int| 0 <= k < pieces@.len() ==> #[trigger] pieces@[k]@ == split_on_plus(s.subrange(0, i as int))[k],
            split_on_plus(s.subrange(0, i as int)).last() == s.subrange(start as int, i as int),
        decreases n - i,
    {
        let c = key_chord.get_char(i);
        proof {
            assert(s.subrange(0, i + 1).drop_last() =~= s.subrange(0, i as int));
            assert(s.subrange(0, i + 1).last() == c);
        }
        if c == '+' {
            let piece = key_chord.substring_char(start, i);
            pieces.push(piece);
            start = i + 1;
            proof {
                assert(s.subrange(start as int, i + 1) =~= Seq::<char>::empty());
            }
        } else {
            proof {
                assert(s.subrange(start as int, i + 1) =~= s.subrange(start as int, i as int).push(c));
            }
        }
        i = i + 1;
    }
    let piece = key_chord.substring_char(start, n);
    pieces.push(piece);
    proof {
        assert(s.subrange(0, n as int) =~= s);
    }
    pieces
}

impl KeyChordParser {
    pub fn new() -> (p: KeyChordParser) {
        KeyChordParser {}
    }

    /// Looks one piece of a chord text up, as `parse_tokens` does.
    fn parse_token(&self, tok: &str) -> (r: Result<i32, ChordError>)
        ensures
            match named_key(canonical_token(tok@)) {
                Some(c) => r == Ok::<i32, ChordError>(c),
                None => r matches Err(ChordError::InvalidChord(n)) && n@ == canonical_token(tok@),
            },
    {
        let name = lowercase(trim_text(tok));
        match key_code(name.as_str()) {
            Some(c) => Ok(c),
            None => Err(ChordError::InvalidChord(name)),
        }
    }

    /// Splits `key_chord` on `+`, trims each piece and puts it in lower case,
    /// and maps it to its key code. Fails on the first piece that names no
    /// known key, with that piece in the form in which it was looked up.
    pub fn parse(&self, key_chord: &str) -> (r: Result<Vec<i32>, ChordError>)
        ensures
            match parse_chord(key_chord@) {
                Ok(codes) => r matches Ok(v) && v@ == codes,
                Err(t) => r matches Err(ChordError::InvalidChord(n)) && n@ == t,
            },
    {
        let pieces = split_pieces(key_chord);
        let ghost toks = split_on_plus(key_chord@);
        let mut codes: Vec<i32> = Vec::new();
        let mut k: usize = 0;
        while k < pieces.len()
            invariant
                toks == split_on_plus(key_chord@),
                pieces@.len() == toks.len(),
                forall|j: int| 0 <= j < pieces@.len() ==> #[trigger] pieces@[j]@ == toks[j],
                k <= pieces@.len(),
                parse_tokens(toks.subrange(0, k as int)) == Ok::<Seq<i32>, Seq<char>>(codes@),
            decreases pieces@.len() - k,
        {
            let r = self.parse_token(pieces[k]);
            proof {
                assert(toks.subrange(0, k + 1).drop_last() =~= toks.subrange(0, k as int));
                assert(toks.subrange(0, k + 1).last() == pieces@[k as int]@);
            }
            match r {
                Ok(code) => {
                    codes.push(code);
                },
                Err(e) => {
                    proof {
                        lemma_parse_error_persists(toks, k + 1, canonical_token(toks[k as int]), toks.len() as int);
                        assert(toks.subrange(0, toks.len() as int) =~= toks);
                    }
                    return Err(e);
                },
            }
            k = k + 1;
        }
        proof {
            assert(toks.subrange(0, toks.len() as int) =~= toks);
        }
        Ok(codes)
    }
}

} // verus!
