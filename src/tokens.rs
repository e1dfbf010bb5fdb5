use vstd::prelude::*;

verus! {

/// The characters with Unicode's `White_Space` property.
pub open spec fn is_white_space(c: char) -> bool {
    ||| '\u{9}' <= c <= '\u{d}'
    ||| c == ' '
    ||| c == '\u{85}'
    ||| c == '\u{a0}'
    ||| c == '\u{1680}'
    ||| '\u{2000}' <= c <= '\u{200a}'
    ||| c == '\u{2028}'
    ||| c == '\u{2029}'
    ||| c == '\u{202f}'
    ||| c == '\u{205f}'
    ||| c == '\u{3000}'
}

pub open spec fn trim_start_spec(s: Seq<char>) -> Seq<char>
    decreases s.len(),
{
    if s.len() > 0 && is_white_space(s[0]) {
        trim_start_spec(s.drop_first())
    } else {
        s
    }
}

pub open spec fn trim_end_spec(s: Seq<char>) -> Seq<char>
    decreases s.len(),
{
    if s.len() > 0 && is_white_space(s.last()) {
        trim_end_spec(s.drop_last())
    } else {
        s
    }
}

/// `s` without its leading and trailing white space.
pub open spec fn trim_spec(s: Seq<char>) -> Seq<char> {
    trim_end_spec(trim_start_spec(s))
}

pub open spec fn is_decimal_digit(c: char) -> bool {
    '0' <= c <= '9'
}

pub open spec fn all_decimal_digits(s: Seq<char>) -> bool {
    forall|i: int| 0 <= i < s.len() ==> is_decimal_digit(#[trigger] s[i])
}

/// The number that a string of decimal digits writes.
pub open spec fn digits_value(s: Seq<char>) -> int
    decreases s.len(),
{
    if s.len() == 0 {
        0
    } else {
        digits_value(s.drop_last()) * 10 + (s.last() as int - '0' as int)
    }
}

/// The integer that `s` writes as an optional `+` or `-` followed by one or
/// more decimal digits, if it does.
pub open spec fn signed_decimal(s: Seq<char>) -> Option<int> {
    if s.len() > 0 && (s[0] == '+' || s[0] == '-') {
        let d = s.drop_first();
        if d.len() > 0 && all_decimal_digits(d) {
            Some(if s[0] == '-' { -digits_value(d) } else { digits_value(d) })
        } else {
            None
        }
    } else if s.len() > 0 && all_decimal_digits(s) {
        Some(digits_value(s))
    } else {
        None
    }
}

/// What reading `s` as an `i64` gives: a signed decimal that fits the type.
pub open spec fn parse_i64_spec(s: Seq<char>) -> Option<i64> {
    match signed_decimal(s) {
        Some(v) => if i64::MIN <= v <= i64::MAX {
            Some(v as i64)
        } else {
            None
        },
        None => None,
    }
}

/// Relies on `str::trim`: it removes leading and trailing characters with the
/// Unicode `White_Space` property.
#[verifier::external_body]
fn trim_str(s: &str) -> (r: &str)
    ensures
        r@ == trim_spec(s@),
{
    s.trim()
}

/// Relies on `i64`'s `FromStr`: an optional `+` or `-` followed by decimal
/// digits, whose value fits in an `i64`; anything else is an error.
#[verifier::external_body]
fn parse_i64(s: &str) -> (r: Option<i64>)
    ensures
        r == parse_i64_spec(s@),
{
    s.parse::<i64>().ok()
}

/// One comma-separated piece of a timestamp list, read.
#[derive(Clone, Debug, PartialEq, Eq)]
pub enum Token {
    /// Empty or only white space: dropped without a word.
    Blank,
    /// A 64-bit integer, white space around it ignored.
    Value(i64),
    /// Anything else; holds the piece as it was given.
    Invalid(String),
}

/// The mathematical form of a `Token`.
pub ghost enum TokenModel {
    Blank,
    Value(i64),
    Invalid(Seq<char>),
}

impl View for Token {
    type V = TokenModel;

    open spec fn view(&self) -> TokenModel {
        match self {
            Token::Blank => TokenModel::Blank,
            Token::Value(v) => TokenModel::Value(*v),
            Token::Invalid(s) => TokenModel::Invalid(s@),
        }
    }
}

/// How one piece reads: blank when trimming leaves nothing, else the integer
/// that the trimmed piece writes, else invalid.
pub open spec fn token_spec(piece: Seq<char>) -> TokenModel {
    let t = trim_spec(piece);
    if t.len() == 0 {
        TokenModel::Blank
    } else {
        match parse_i64_spec(t) {
            Some(v) => TokenModel::Value(v),
            None => TokenModel::Invalid(piece),
        }
    }
}

pub fn classify_token(piece: &str) -> (r: Token)
    ensures
        r@ == token_spec(piece@),
{
    let t = trim_str(piece);
    if t.unicode_len() == 0 {
        Token::Blank
    } else {
        match parse_i64(t) {
            Some(v) => Token::Value(v),
            None => Token::Invalid(piece.to_string()),
        }
    }
}

/// The pieces of `s` between commas, in order; `s` without a comma is one piece.
pub open spec fn split_commas_spec(s: Seq<char>) -> Seq<Seq<char>>
    decreases s.len(),
{
    if s.len() == 0 {
        seq![Seq::empty()]
    } else {
        let rest = split_commas_spec(s.drop_last());
        if s.last() == ',' {
            rest.push(Seq::empty())
        } else {
            rest.update(rest.len() - 1, rest.last().push(s.last()))
        }
    }
}

proof fn lemma_split_commas_nonempty(s: Seq<char>)
    ensures
        split_commas_spec(s).len() >= 1,
    decreases s.len(),
{
    if s.len() > 0 {
        lemma_split_commas_nonempty(s.drop_last());
    }
}

pub fn split_commas(s: &str) -> (r: Vec<String>)
    ensures
        r@.map_values(|p: String| p@) == split_commas_spec(s@),
{
    let n = s.unicode_len();
    let mut pieces: Vec<String> = Vec::new();
    let mut start: usize = 0;
    let mut i: usize = 0;
    proof {
        assert(s@.subrange(0, 0) =~= Seq::<char>::empty());
        assert(pieces@.map_values(|p: String| p@).push(s@.subrange(0, 0)) =~= seq![
            Seq::<char>::empty(),
        ]);
    }
    while i < n
        invariant
            n == s@.len(),
            start <= i <= n,
            pieces@.map_values(|p: String| p@).push(s@.subrange(start as int, i as int))
                == split_commas_spec(s@.subrange(0, i as int)),
        decreases n - i,
    {
        let c = s.get_char(i);
        proof {
            let pre = s@.subrange(0, i as int);
            let next = s@.subrange(0, i + 1);
            assert(next.drop_last() == pre);
            assert(next.last() == c);
            lemma_split_commas_nonempty(pre);
            assert(s@.subrange(start as int, i + 1) == s@.subrange(start as int, i as int).push(c));
        }
        if c == ',' {
            let piece = s.substring_char(start, i).to_string();
            pieces.push(piece);
            start = i + 1;
            proof {
                assert(s@.subrange(start as int, i + 1) == Seq::<char>::empty());
            }
        }
        i = i + 1;
    }
    let last = s.substring_char(start, n).to_string();
    pieces.push(last);
    proof {
        assert(s@.subrange(0, n as int) == s@);
    }
    pieces
}

/// Splits `s` at its commas and reads each piece.
pub fn parse_timestamp_list(s: &str) -> (r: Vec<Token>)
    ensures
        r@.map_values(|t: Token| t@) == split_commas_spec(s@).map_values(|p| token_spec(p)),
{
    let pieces = split_commas(s);
    let mut out: Vec<Token> = Vec::new();
    let mut i: usize = 0;
    while i < pieces.len()
        invariant
            i <= pieces@.len(),
            out@.len() == i,
            out@.map_values(|t: Token| t@) == pieces@.subrange(0, i as int).map_values(
                |p: String| token_spec(p@),
            ),
        decreases pieces@.len() - i,
    {
        let tok = classify_token(pieces[i].as_str());
        let ghost before = out@;
        out.push(tok);
        proof {
            assert(out@ == before.push(tok));
            assert(tok@ == token_spec(pieces@[i as int]@));
            assert forall|k: int| 0 <= k < i + 1 implies #[trigger] out@[k]@ == token_spec(
                pieces@[k]@,
            ) by {
                if k < i {
                    assert(out@[k] == before[k]);
                    assert(before.map_values(|t: Token| t@)[k] == before[k]@);
                }
            }
            assert(before.map_values(|t: Token| t@) == pieces@.subrange(0, i as int).map_values(
                |p: String| token_spec(p@),
            ));
            assert(pieces@.subrange(0, i + 1) == pieces@.subrange(0, i as int).push(pieces@[i as int]));
            assert(out@.map_values(|t: Token| t@) =~= pieces@.subrange(0, i + 1).map_values(
                |p: String| token_spec(p@),
            ));
        }
        i = i + 1;
    }
    proof {
        assert(pieces@.subrange(0, i as int) == pieces@);
        assert(pieces@.map_values(|p: String| token_spec(p@)) =~= pieces@.map_values(
            |p: String| p@,
        ).map_values(|p| token_spec(p)));
    }
    out
}

} // verus!
