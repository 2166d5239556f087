use vstd::prelude::*;
use vstd::string::*;
use crate::errors::ErrorKind;
use crate::flags::{
    lemma_parse_render_roundtrip, lemma_read_ok_iff_all_letters, letter_flag, parse_flags,
    render_flags, CompileFlags,
};
use crate::text::{
    decimal_digits, find_char, id_of, is_digit, lemma_decimal_digits_value,
    lemma_id_of_decimal_digits, lemma_index_of_first_is, lemma_index_of_last_is, parse_id,
    render_decimal, rfind_char,
};

verus! {

/// An expression with the flags that modify it and the id under which its
/// matches are reported.
#[derive(Debug, Clone)]
pub struct Pattern {
    /// The expression to match.
    pub expression: String,
    /// Flags which modify the behaviour of the expression.
    pub flags: CompileFlags,
    /// The id that is reported for a match of this expression.
    pub id: usize,
}

/// Vec of `Pattern`
pub type Patterns = Vec<Pattern>;

/// A pattern as plain values.
pub ghost struct PatternView {
    pub expression: Seq<char>,
    pub flags: CompileFlags,
    pub id: usize,
}

impl View for Pattern {
    type V = PatternView;

    open spec fn view(&self) -> PatternView {
        PatternView { expression: self.expression@, flags: self.flags, id: self.id }
    }
}

/// What the text behind the id means. Text that starts with `/` and has a
/// later `/` is an expression between the first and the last `/`, followed
/// by flag letters; any other text is an expression as it stands.
pub open spec fn parse_body(body: Seq<char>, id: usize) -> Result<PatternView, ErrorKind> {
    match body.index_of_last('/') {
        Some(end) if end > 0 && body[0] == '/' => match parse_flags(body.skip(end + 1)) {
            Ok(flags) => Ok(PatternView { expression: body.subrange(1, end), flags, id }),
            Err(e) => Err(e),
        },
        _ => Ok(PatternView { expression: body, flags: CompileFlags(0), id }),
    }
}

/// What a line of pattern text means. Where it holds a `:`, the text in front
/// of the first one is the id and the rest is the body; else the id is 0 and
/// the whole line is the body.
pub open spec fn parse_pattern(s: Seq<char>) -> Result<PatternView, ErrorKind> {
    match s.index_of_first(':') {
        Some(off) => match id_of(s.take(off)) {
            Some(id) => parse_body(s.skip(off + 1), id),
            None => Err(ErrorKind::InvalidId),
        },
        None => parse_body(s, 0),
    }
}

/// Whether `c` has a meaning of its own in a regular expression.
pub open spec fn is_meta_character(c: char) -> bool {
    c == '\\' || c == '.' || c == '+' || c == '*' || c == '?' || c == '(' || c == ')' || c == '|'
        || c == '[' || c == ']' || c == '{' || c == '}' || c == '^' || c == '$' || c == '#'
        || c == '&' || c == '-' || c == '~'
}

/// `s` with a backslash in front of every meta character.
pub open spec fn escaped(s: Seq<char>) -> Seq<char>
    decreases s.len(),
{
    if s.len() == 0 {
        Seq::empty()
    } else if is_meta_character(s.last()) {
        escaped(s.drop_last()).push('\\').push(s.last())
    } else {
        escaped(s.drop_last()).push(s.last())
    }
}

/// The canonical text of a pattern: `<id>:/<escaped expression>/<flags>`.
pub open spec fn render_pattern(p: PatternView) -> Seq<char> {
    decimal_digits(p.id as nat) + seq![':', '/'] + escaped(p.expression) + seq!['/']
        + render_flags(p.flags.0)
}

/// Calls `regex_syntax::escape`, which copies the text character by
/// character and puts a backslash in front of each character that
/// `regex_syntax::is_meta_character` accepts. The contract states exactly
/// that, with the same eighteen characters.
#[verifier::external_body]
fn escape(text: &str) -> (r: String)
    ensures
        r@ == escaped(text@),
{
    regex_syntax::escape(text)
}

impl core::str::FromStr for Pattern {
    type Err = ErrorKind;

    #[inline]
    fn from_str(s: &str) -> (r: Result<Pattern, ErrorKind>)
        ensures
            match r {
                Ok(p) => parse_pattern(s@) == Ok::<PatternView, ErrorKind>(p@),
                Err(e) => parse_pattern(s@) == Err::<PatternView, ErrorKind>(e),
            },
    {
        Pattern::parse(s)
    }
}

/// Reads the text behind the id.
fn parse_body_text(body: &str, id: usize) -> (r: Result<Pattern, ErrorKind>)
    ensures
        match r {
            Ok(p) => parse_body(body@, id) == Ok::<PatternView, ErrorKind>(p@),
            Err(e) => parse_body(body@, id) == Err::<PatternView, ErrorKind>(e),
        },
{
    let n: usize = body.unicode_len();
    match rfind_char(body, '/') {
        Some(end) => {
            proof {
                body@.index_of_last_ensures('/');
            }
            if end > 0 && body.get_char(0) == '/' {
                match CompileFlags::parse(body.substring_char(end + 1, n)) {
                    Ok(flags) => Ok(
                        Pattern {
                            expression: String::from_str(body.substring_char(1, end)),
                            flags,
                            id,
                        },
                    ),
                    Err(e) => Err(e),
                }
            } else {
                Ok(Pattern { expression: String::from_str(body), flags: CompileFlags(0), id })
            }
        },
        None => Ok(Pattern { expression: String::from_str(body), flags: CompileFlags(0), id }),
    }
}

impl Pattern {
    /// A pattern from its three parts.
    pub fn new(expression: String, flags: CompileFlags, id: usize) -> (r: Pattern)
        ensures
            r@ == (PatternView { expression: expression@, flags, id }),
    {
        Pattern { expression, flags, id }
    }

    /// Reads a line of pattern text, `[<id>:]/<expression>/<flags>` or a bare
    /// expression.
    pub fn parse(s: &str) -> (r: Result<Pattern, ErrorKind>)
        ensures
            match r {
                Ok(p) => parse_pattern(s@) == Ok::<PatternView, ErrorKind>(p@),
                Err(e) => parse_pattern(s@) == Err::<PatternView, ErrorKind>(e),
            },
    {
        let n: usize = s.unicode_len();
        match find_char(s, ':') {
            Some(off) => {
                proof {
                    s@.index_of_first_ensures(':');
                }
                let id_text = s.substring_char(0, off);
                assert(id_text@ =~= s@.take(off as int));
                match parse_id(id_text) {
                    Some(id) => {
                        let body = s.substring_char(off + 1, n);
                        assert(body@ =~= s@.skip(off + 1));
                        parse_body_text(body, id)
                    },
                    None => Err(ErrorKind::InvalidId),
                }
            },
            None => parse_body_text(s, 0),
        }
    }

    /// The canonical text of the pattern. The expression is escaped, so the
    /// text need not be the one that the pattern was read from.
    pub fn to_string(&self) -> (r: String)
        ensures
            r@ == render_pattern(self@),
    {
        let mut out = render_decimal(self.id);
        let expression = escape(self.expression.as_str());
        let flags = self.flags.to_string();
        proof {
            reveal_strlit(":/");
            reveal_strlit("/");
            assert(":/"@ =~= seq![':', '/']);
            assert("/"@ =~= seq!['/']);
        }
        out.append(":/");
        out.append(expression.as_str());
        out.append("/");
        out.append(flags.as_str());
        out
    }
}

/// Reading the canonical text of a pattern with valid flags gives the
/// pattern back, with its expression escaped.
pub proof fn lemma_parse_rendered(p: PatternView)
    requires
        p.flags.is_valid(),
    ensures
        parse_pattern(render_pattern(p)) == Ok::<PatternView, ErrorKind>(
            PatternView { expression: escaped(p.expression), flags: p.flags, id: p.id },
        ),
{
    let digits = decimal_digits(p.id as nat);
    let expression = escaped(p.expression);
    let letters = render_flags(p.flags.0);
    let text = render_pattern(p);
    let body = seq!['/'] + expression + seq!['/'] + letters;
    let off = digits.len() as int;
    let end = expression.len() as int + 1;

    lemma_decimal_digits_value(p.id as nat);
    lemma_id_of_decimal_digits(p.id);
    assert forall|j: int| 0 <= j < off implies text[j] != ':' by {
        assert(text[j] == digits[j]);
        assert(is_digit(digits[j]));
    }
    assert(text[off] == ':');
    lemma_index_of_first_is(text, ':', off);
    assert(text.take(off) =~= digits);
    assert(text.skip(off + 1) =~= body);

    lemma_parse_render_roundtrip(p.flags);
    lemma_read_ok_iff_all_letters(letters, 0);
    assert forall|j: int| end < j < body.len() implies body[j] != '/' by {
        assert(body[j] == letters[j - end - 1]);
        assert(letter_flag(letters[j - end - 1]) is Some);
    }
    assert(body[end] == '/');
    assert(body[0] == '/');
    lemma_index_of_last_is(body, '/', end);
    assert(body.skip(end + 1) =~= letters);
    assert(body.subrange(1, end) =~= expression);
}

} // verus!
