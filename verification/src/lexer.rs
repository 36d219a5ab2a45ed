//! The line classifier. It walks the input line by line, keeps track of the
//! current section, and emits one token per recognised line; blank lines and
//! lines outside a recognised section emit nothing. The stream always ends
//! with the `EOF` sentinel.

use vstd::prelude::*;
use crate::text::{
    is_space, is_upper_char, is_upper, skip_spaces, skip_upper, trim_spec, trim_str, lower_seq,
    eq_lowered, lemma_skip_upper,
};

verus! {

/// A classified input line. The same `CODE: text` shape is a character
/// definition in the characters section and a dialogue line in the script
/// section; the section alone disambiguates.
#[derive(Debug, Clone, PartialEq)]
pub enum Token {
    SectionHeader(String),
    CharacterDef { code: String, name: String },
    DialogueLine { speaker: String, text: String },
    NarrationLine(String),
    ActionText(String),
    LocationHeader(String),
    EOF,
}

/// Mathematical model of a token.
pub enum TokenView {
    SectionHeader(Seq<char>),
    CharacterDef { code: Seq<char>, name: Seq<char> },
    DialogueLine { speaker: Seq<char>, text: Seq<char> },
    NarrationLine(Seq<char>),
    ActionText(Seq<char>),
    LocationHeader(Seq<char>),
    EOF,
}

impl View for Token {
    type V = TokenView;

    open spec fn view(&self) -> TokenView {
        match self {
            Token::SectionHeader(s) => TokenView::SectionHeader(s@),
            Token::CharacterDef { code, name } => TokenView::CharacterDef {
                code: code@,
                name: name@,
            },
            Token::DialogueLine { speaker, text } => TokenView::DialogueLine {
                speaker: speaker@,
                text: text@,
            },
            Token::NarrationLine(s) => TokenView::NarrationLine(s@),
            Token::ActionText(s) => TokenView::ActionText(s@),
            Token::LocationHeader(s) => TokenView::LocationHeader(s@),
            Token::EOF => TokenView::EOF,
        }
    }
}

/// The views of a token vector, in order.
pub open spec fn token_views(v: Seq<Token>) -> Seq<TokenView> {
    v.map_values(|t: Token| t@)
}

/// The classifier's section state. Only the characters and script sections
/// let content lines produce tokens.
#[derive(Debug, Clone, Copy, PartialEq, Eq, Structural)]
pub enum Section {
    Preamble,
    Title,
    Characters,
    Script,
    Other,
}

/// A `## `-prefixed header line (already trimmed).
pub open spec fn is_header2(t: Seq<char>) -> bool {
    t.len() >= 3 && t[0] == '#' && t[1] == '#' && t[2] == ' '
}

/// The section name of a `## ` header: the remainder, trimmed.
pub open spec fn header2_name(t: Seq<char>) -> Seq<char> {
    trim_spec(t.subrange(3, t.len() as int))
}

/// A `# `-prefixed title header line (already trimmed).
pub open spec fn is_header1(t: Seq<char>) -> bool {
    t.len() >= 2 && t[0] == '#' && t[1] == ' '
}

/// The `CODE: text` shape on a trimmed line: one or more ASCII uppercase
/// letters, a colon, and a non-empty remainder.
pub open spec fn is_code_shape(t: Seq<char>) -> bool {
    let k = skip_upper(t, 0);
    1 <= k && k + 1 < t.len() && t[k] == ':'
}

/// The uppercase code before the colon.
pub open spec fn code_of(t: Seq<char>) -> Seq<char> {
    t.subrange(0, skip_upper(t, 0))
}

/// The text after the colon, with leading whitespace dropped.
pub open spec fn text_of(t: Seq<char>) -> Seq<char> {
    t.subrange(skip_spaces(t, skip_upper(t, 0) + 1), t.len() as int)
}

/// A line fully wrapped in square brackets.
pub open spec fn is_location_shape(t: Seq<char>) -> bool {
    t.len() >= 2 && t[0] == '[' && t[t.len() - 1] == ']'
}

/// A line fully wrapped in parentheses.
pub open spec fn is_action_shape(t: Seq<char>) -> bool {
    t.len() >= 2 && t[0] == '(' && t[t.len() - 1] == ')'
}

/// The text between the wrapping pair of characters.
pub open spec fn inner_of(t: Seq<char>) -> Seq<char> {
    t.subrange(1, t.len() - 1)
}

/// The section that a header name selects; compared case-insensitively.
pub open spec fn section_of_name(name: Seq<char>) -> Section {
    if lower_seq(name) == "characters"@ {
        Section::Characters
    } else if lower_seq(name) == "script"@ {
        Section::Script
    } else if lower_seq(name) == "title"@ {
        Section::Title
    } else {
        Section::Other
    }
}

/// The section state after one raw line: header lines switch it, every
/// other line leaves it unchanged.
pub open spec fn next_section(sec: Section, line: Seq<char>) -> Section {
    let t = trim_spec(line);
    if t.len() == 0 {
        sec
    } else if is_header2(t) {
        section_of_name(header2_name(t))
    } else if is_header1(t) {
        Section::Title
    } else {
        sec
    }
}

/// The token one raw line produces in section `sec`, if any. Blank lines
/// never produce a token; header lines always do; content lines produce one
/// exactly in the characters and script sections.
pub open spec fn token_of(sec: Section, line: Seq<char>) -> Option<TokenView> {
    let t = trim_spec(line);
    if t.len() == 0 {
        None
    } else if is_header2(t) {
        Some(TokenView::SectionHeader(header2_name(t)))
    } else if is_header1(t) {
        Some(TokenView::SectionHeader("title"@))
    } else if sec == Section::Characters {
        if is_code_shape(t) {
            Some(TokenView::CharacterDef { code: code_of(t), name: text_of(t) })
        } else {
            None
        }
    } else if sec == Section::Script {
        if is_location_shape(t) {
            Some(TokenView::LocationHeader(inner_of(t)))
        } else if is_action_shape(t) {
            Some(TokenView::ActionText(inner_of(t)))
        } else if is_code_shape(t) {
            Some(TokenView::DialogueLine { speaker: code_of(t), text: text_of(t) })
        } else {
            Some(TokenView::NarrationLine(t))
        }
    } else {
        None
    }
}

/// Position of the next newline at or after `i`, or the end of the input.
pub open spec fn line_end(s: Seq<char>, i: int) -> int
    decreases s.len() - i,
{
    if i < 0 || i >= s.len() {
        s.len() as int
    } else if s[i] == '\n' {
        i
    } else {
        line_end(s, i + 1)
    }
}

pub proof fn lemma_line_end(s: Seq<char>, i: int)
    requires
        0 <= i <= s.len(),
    ensures
        i <= line_end(s, i) <= s.len(),
        forall|j: int| i <= j < line_end(s, i) ==> s[j] != '\n',
        line_end(s, i) < s.len() ==> s[line_end(s, i)] == '\n',
    decreases s.len() - i,
{
    if i < s.len() && s[i] != '\n' {
        lemma_line_end(s, i + 1);
    }
}

/// The tokens of the input from position `i` on, given section state `sec`
/// and the tokens already emitted.
pub open spec fn lex_from(s: Seq<char>, i: int, sec: Section, acc: Seq<TokenView>) -> Seq<
    TokenView,
>
    decreases s.len() + 1 - i via lex_from_decreases
{
    if i < 0 || i >= s.len() {
        acc
    } else {
        let j = line_end(s, i);
        let line = s.subrange(i, j);
        let acc2 = match token_of(sec, line) {
            Some(t) => acc.push(t),
            None => acc,
        };
        lex_from(s, j + 1, next_section(sec, line), acc2)
    }
}

#[via_fn]
proof fn lex_from_decreases(s: Seq<char>, i: int, sec: Section, acc: Seq<TokenView>) {
    if 0 <= i < s.len() {
        lemma_line_end(s, i);
    }
}

/// The full token stream of an input text: its lines classified in order,
/// with the `EOF` sentinel appended.
pub open spec fn lex_spec(input: Seq<char>) -> Seq<TokenView> {
    lex_from(input, 0, Section::Preamble, Seq::empty()).push(TokenView::EOF)
}

/// The token stream is never empty: the sentinel is always present.
pub proof fn lemma_lex_nonempty(input: Seq<char>)
    ensures
        lex_spec(input).len() >= 1,
        lex_spec(input)[lex_spec(input).len() - 1] == TokenView::EOF,
{
}

/// A line whose trimmed form is empty produces no token and leaves the
/// section state unchanged, whatever the section.
pub proof fn lemma_blank_line_no_token(sec: Section, line: Seq<char>)
    requires
        trim_spec(line).len() == 0,
    ensures
        token_of(sec, line) is None,
        next_section(sec, line) == sec,
{
}

/// Section context alone disambiguates the `CODE: text` shape: in the
/// characters section it is a character definition, in the script section a
/// dialogue line, with the same code and text either way.
pub proof fn lemma_code_shape_by_section(line: Seq<char>)
    requires
        is_code_shape(trim_spec(line)),
    ensures
        token_of(Section::Characters, line) == Some(
            TokenView::CharacterDef {
                code: code_of(trim_spec(line)),
                name: text_of(trim_spec(line)),
            },
        ),
        token_of(Section::Script, line) == Some(
            TokenView::DialogueLine {
                speaker: code_of(trim_spec(line)),
                text: text_of(trim_spec(line)),
            },
        ),
{
    let t = trim_spec(line);
    lemma_skip_upper(t, 0);
    assert(is_upper_char(t[0]));
    assert(!is_header2(t));
    assert(!is_header1(t));
    assert(!is_location_shape(t));
    assert(!is_action_shape(t));
}

/// The classifier. It holds the whole input and a cursor; the cursor and
/// position fields mirror the single-pass scan.
pub struct Lexer {
    input: String,
    position: usize,
    line: usize,
    column: usize,
}

impl View for Lexer {
    type V = Seq<char>;

    closed spec fn view(&self) -> Seq<char> {
        self.input@
    }
}

impl Lexer {
    pub fn new(input: String) -> (r: Lexer)
        ensures
            r@ == input@,
    {
        Lexer { input, position: 0, line: 1, column: 1 }
    }

    /// Classifies every line of the input, in order, and appends the `EOF`
    /// sentinel.
    pub fn tokenize(&mut self) -> (res: Vec<Token>)
        ensures
            final(self)@ == old(self)@,
            token_views(res@) == lex_spec(old(self)@),
    {
        let mut tokens: Vec<Token> = Vec::new();
        let n = self.input.as_str().unicode_len();
        let mut pos: usize = 0;
        let mut sec = Section::Preamble;
        proof {
            assert(token_views(tokens@) =~= Seq::<TokenView>::empty());
        }
        while pos < n
            invariant
                self@ == old(self)@,
                n == self@.len(),
                0 <= pos <= n,
                lex_from(self@, pos as int, sec, token_views(tokens@)) == lex_from(
                    self@,
                    0,
                    Section::Preamble,
                    Seq::empty(),
                ),
            decreases n - pos,
        {
            let ghost s = self@;
            let mut j: usize = pos;
            while j < n && self.input.as_str().get_char(j) != '\n'
                invariant
                    self@ == s,
                    n == s.len(),
                    pos <= j <= n,
                    forall|k: int| pos <= k < j ==> s[k] != '\n',
                decreases n - j,
            {
                j = j + 1;
            }
            proof {
                lemma_line_end(s, pos as int);
                if line_end(s, pos as int) < j {
                    assert(s[line_end(s, pos as int)] == '\n');
                }
                if j < line_end(s, pos as int) {
                    assert(s[j as int] == '\n');
                    assert(s[j as int] != '\n');
                }
                assert(line_end(s, pos as int) == j as int);
            }
            let ghost pos0 = pos as int;
            let ghost sec0 = sec;
            let ghost lineg = s.subrange(pos0, j as int);
            let line = self.input.as_str().substring_char(pos, j);
            let ghost toks_before = token_views(tokens@);
            let (next_sec, tok) = classify_line(sec, line);
            match tok {
                Some(t) => {
                    proof {
                        assert(token_views(tokens@.push(t)) =~= toks_before.push(t@));
                    }
                    tokens.push(t);
                }
                None => {},
            }
            sec = next_sec;
            pos = if j < n {
                j + 1
            } else {
                n
            };
            proof {
                assert(lex_from(s, pos0, sec0, toks_before) == lex_from(
                    s,
                    j + 1,
                    next_section(sec0, lineg),
                    token_views(tokens@),
                ));
                if j == n {
                    assert(lex_from(s, j + 1, sec, token_views(tokens@)) == token_views(tokens@));
                    assert(lex_from(s, n as int, sec, token_views(tokens@)) == token_views(
                        tokens@,
                    ));
                }
            }
        }
        proof {
            assert(lex_from(self@, pos as int, sec, token_views(tokens@)) == token_views(
                tokens@,
            ));
        }
        let ghost toks_before = token_views(tokens@);
        tokens.push(Token::EOF);
        proof {
            assert(token_views(tokens@) =~= toks_before.push(TokenView::EOF));
        }
        tokens
    }
}

/// Matches the `CODE: text` shape on a trimmed line, returning the code and
/// the text after the colon with leading whitespace dropped.
fn match_code_line(t: &str) -> (r: Option<(String, String)>)
    ensures
        match r {
            Some(p) => is_code_shape(t@) && p.0@ == code_of(t@) && p.1@ == text_of(t@),
            None => !is_code_shape(t@),
        },
{
    let n = t.unicode_len();
    let mut k: usize = 0;
    while k < n && is_upper(t.get_char(k))
        invariant
            n == t@.len(),
            0 <= k <= n,
            forall|j: int| 0 <= j < k ==> is_upper_char(t@[j]),
        decreases n - k,
    {
        k = k + 1;
    }
    proof {
        lemma_skip_upper(t@, 0);
        if skip_upper(t@, 0) < k {
            assert(is_upper_char(t@[skip_upper(t@, 0)]));
        }
        if (k as int) < skip_upper(t@, 0) {
            assert(is_upper_char(t@[k as int]));
            assert(!is_upper_char(t@[k as int]));
        }
        assert(skip_upper(t@, 0) == k as int);
    }
    if 1 <= k && k < n {
        if t.get_char(k) == ':' && k + 1 < n {
            let mut m: usize = k + 1;
            while m < n && is_space(t.get_char(m))
                invariant
                    n == t@.len(),
                    k + 1 <= m <= n,
                    skip_spaces(t@, (k + 1) as int) == skip_spaces(t@, m as int),
                decreases n - m,
            {
                m = m + 1;
            }
            proof {
                assert(skip_spaces(t@, (k + 1) as int) == m as int);
            }
            let code = String::from_str(t.substring_char(0, k));
            let text = String::from_str(t.substring_char(m, n));
            Some((code, text))
        } else {
            None
        }
    } else {
        None
    }
}

/// Classifies one raw line in section `sec`: the token it produces, if any,
/// and the section state afterwards.
fn classify_line(sec: Section, line: &str) -> (r: (Section, Option<Token>))
    ensures
        r.0 == next_section(sec, line@),
        match r.1 {
            Some(t) => token_of(sec, line@) == Some(t@),
            None => token_of(sec, line@) is None,
        },
{
    let t = trim_str(line);
    let n = t.unicode_len();
    if n == 0 {
        return (sec, None);
    }
    // `## ` section header
    if n >= 3 && t.get_char(0) == '#' && t.get_char(1) == '#' && t.get_char(2) == ' ' {
        let name = trim_str(t.substring_char(3, n));
        let new_sec = if eq_lowered(name, "characters") {
            Section::Characters
        } else if eq_lowered(name, "script") {
            Section::Script
        } else if eq_lowered(name, "title") {
            Section::Title
        } else {
            Section::Other
        };
        return (new_sec, Some(Token::SectionHeader(String::from_str(name))));
    }
    // `# ` title header
    if n >= 2 && t.get_char(0) == '#' && t.get_char(1) == ' ' {
        return (Section::Title, Some(Token::SectionHeader(String::from_str("title"))));
    }
    match sec {
        Section::Characters => {
            match match_code_line(t) {
                Some(p) => (sec, Some(Token::CharacterDef { code: p.0, name: p.1 })),
                None => (sec, None),
            }
        }
        Section::Script => {
            if t.get_char(0) == '[' && t.get_char(n - 1) == ']' && n >= 2 {
                let inner = String::from_str(t.substring_char(1, n - 1));
                (sec, Some(Token::LocationHeader(inner)))
            } else if t.get_char(0) == '(' && t.get_char(n - 1) == ')' && n >= 2 {
                let inner = String::from_str(t.substring_char(1, n - 1));
                (sec, Some(Token::ActionText(inner)))
            } else {
                match match_code_line(t) {
                    Some(p) => (sec, Some(Token::DialogueLine { speaker: p.0, text: p.1 })),
                    None => (sec, Some(Token::NarrationLine(String::from_str(t)))),
                }
            }
        }
        _ => (sec, None),
    }
}

} // verus!
