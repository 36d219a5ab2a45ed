//! The document builder. It consumes the token stream with a cursor: a
//! top-level loop dispatches on section headers, a characters sub-parser
//! accumulates definitions into the mapping, and a script sub-parser
//! assembles scenes, discarding a scene that gathered no element before the
//! next location header.

use vstd::prelude::*;
use crate::ast::{
    CharacterMap, ElementView, Scene, SceneView, Script, ScriptElement, ScriptView,
    element_views, empty_script_view, keys_unique, lemma_map_insert_keys_unique, map_insert,
    scene_views, string_views,
};
use crate::lexer::{Token, TokenView, token_views};
use crate::text::{eq_lowered, lower_seq};

verus! {

/// The builder's error: no rule in the current grammar produces it; the
/// result type is kept for forward compatibility.
#[derive(Debug, Clone, PartialEq)]
pub struct ParseError;

/// Whether the cursor is finished at position `i`: past the end, or at the
/// `EOF` sentinel.
pub open spec fn at_end(toks: Seq<TokenView>, i: int) -> bool {
    i >= toks.len() || toks[i] is EOF
}

/// The cursor position after one `advance`: unchanged when finished, one
/// step forward otherwise.
pub open spec fn advanced(toks: Seq<TokenView>, i: int) -> int {
    if at_end(toks, i) {
        i
    } else {
        i + 1
    }
}

/// Position of the next section header or `EOF` token at or after `i`:
/// where both sub-parsers stop, leaving that token unconsumed.
pub open spec fn scan_end(toks: Seq<TokenView>, i: int) -> int
    decreases toks.len() - i,
{
    if i < 0 || i >= toks.len() {
        i
    } else if toks[i] is SectionHeader || toks[i] is EOF {
        i
    } else {
        scan_end(toks, i + 1)
    }
}

pub proof fn lemma_scan_end(toks: Seq<TokenView>, i: int)
    requires
        0 <= i <= toks.len(),
    ensures
        i <= scan_end(toks, i) <= toks.len(),
    decreases toks.len() - i,
{
    if i < toks.len() && !(toks[i] is SectionHeader) && !(toks[i] is EOF) {
        lemma_scan_end(toks, i + 1);
    }
}

/// The character mapping collected from position `i` up to the next section
/// header or `EOF`, starting from `acc`; a later definition of a code
/// overwrites an earlier one.
pub open spec fn chars_from(
    toks: Seq<TokenView>,
    i: int,
    acc: Seq<(Seq<char>, Seq<char>)>,
) -> Seq<(Seq<char>, Seq<char>)>
    decreases toks.len() - i,
{
    if i < 0 || i >= toks.len() {
        acc
    } else {
        match toks[i] {
            TokenView::SectionHeader(_) => acc,
            TokenView::EOF => acc,
            TokenView::CharacterDef { code, name } => chars_from(
                toks,
                i + 1,
                map_insert(acc, code, name),
            ),
            _ => chars_from(toks, i + 1, acc),
        }
    }
}

/// Codes stay unique however many definitions are accumulated.
pub proof fn lemma_chars_from_unique(
    toks: Seq<TokenView>,
    i: int,
    acc: Seq<(Seq<char>, Seq<char>)>,
)
    requires
        keys_unique(acc),
    ensures
        keys_unique(chars_from(toks, i, acc)),
    decreases toks.len() - i,
{
    if 0 <= i < toks.len() {
        match toks[i] {
            TokenView::SectionHeader(_) => {},
            TokenView::EOF => {},
            TokenView::CharacterDef { code, name } => {
                lemma_map_insert_keys_unique(acc, code, name);
                lemma_chars_from_unique(toks, i + 1, map_insert(acc, code, name));
            }
            _ => {
                lemma_chars_from_unique(toks, i + 1, acc);
            }
        }
    }
}

/// A scene with no location and no elements yet.
pub open spec fn empty_scene_view() -> SceneView {
    SceneView { location: None, elements: Seq::empty() }
}

/// Finishing a scene: it joins the list only when it gathered at least one
/// element; an empty scene is discarded.
pub open spec fn push_scene(scenes: Seq<SceneView>, cur: SceneView) -> Seq<SceneView> {
    if cur.elements.len() > 0 {
        scenes.push(cur)
    } else {
        scenes
    }
}

/// A scene with one more element.
pub open spec fn scene_add(cur: SceneView, e: ElementView) -> SceneView {
    SceneView { location: cur.location, elements: cur.elements.push(e) }
}

/// The scene list assembled from position `i` up to the next section header
/// or `EOF`, given the scenes finished so far and the scene being gathered.
pub open spec fn script_from(
    toks: Seq<TokenView>,
    i: int,
    scenes: Seq<SceneView>,
    cur: SceneView,
) -> Seq<SceneView>
    decreases toks.len() - i,
{
    if i < 0 || i >= toks.len() {
        push_scene(scenes, cur)
    } else {
        match toks[i] {
            TokenView::SectionHeader(_) => push_scene(scenes, cur),
            TokenView::EOF => push_scene(scenes, cur),
            TokenView::LocationHeader(l) => script_from(
                toks,
                i + 1,
                push_scene(scenes, cur),
                SceneView { location: Some(l), elements: Seq::empty() },
            ),
            TokenView::DialogueLine { speaker, text } => script_from(
                toks,
                i + 1,
                scenes,
                scene_add(
                    cur,
                    ElementView::Dialogue { speaker, text, actions: Seq::empty() },
                ),
            ),
            TokenView::NarrationLine(t) => script_from(
                toks,
                i + 1,
                scenes,
                scene_add(cur, ElementView::Narration(t)),
            ),
            TokenView::ActionText(t) => script_from(
                toks,
                i + 1,
                scenes,
                scene_add(cur, ElementView::Action(t)),
            ),
            TokenView::CharacterDef { .. } => script_from(toks, i + 1, scenes, cur),
        }
    }
}

/// A location header immediately followed by another location header leaves
/// exactly the scene boundary of the second: the first scene, having no
/// content, is discarded and never appended.
pub proof fn lemma_consecutive_locations(
    toks: Seq<TokenView>,
    i: int,
    scenes: Seq<SceneView>,
    cur: SceneView,
    first: Seq<char>,
    second: Seq<char>,
)
    requires
        0 <= i,
        i + 1 < toks.len(),
        toks[i] == TokenView::LocationHeader(first),
        toks[i + 1] == TokenView::LocationHeader(second),
    ensures
        script_from(toks, i, scenes, cur) == script_from(
            toks,
            i + 2,
            push_scene(scenes, cur),
            SceneView { location: Some(second), elements: Seq::empty() },
        ),
{
    let opened = SceneView { location: Some(first), elements: Seq::empty() };
    assert(script_from(toks, i, scenes, cur) == script_from(
        toks,
        i + 1,
        push_scene(scenes, cur),
        opened,
    ));
    assert(push_scene(push_scene(scenes, cur), opened) == push_scene(scenes, cur));
}

/// The document assembled from position `i` on, given what is built so far.
/// Headers dispatch: a title header stores the fixed title label, the
/// characters and script headers hand the cursor to their sub-parsers (whose
/// fresh result replaces the field), anything else is skipped.
pub open spec fn parse_from(toks: Seq<TokenView>, i: int, acc: ScriptView) -> ScriptView
    decreases toks.len() - i via parse_from_decreases
{
    if i < 0 || i >= toks.len() {
        acc
    } else {
        match toks[i] {
            TokenView::EOF => acc,
            TokenView::SectionHeader(name) => {
                let ls = lower_seq(name);
                if ls == "title"@ {
                    parse_from(
                        toks,
                        i + 1,
                        ScriptView { title: "Title Section"@, ..acc },
                    )
                } else if ls == "characters"@ {
                    parse_from(
                        toks,
                        scan_end(toks, i + 1),
                        ScriptView { characters: chars_from(toks, i + 1, Seq::empty()), ..acc },
                    )
                } else if ls == "script"@ {
                    parse_from(
                        toks,
                        scan_end(toks, i + 1),
                        ScriptView {
                            scenes: script_from(toks, i + 1, Seq::empty(), empty_scene_view()),
                            ..acc
                        },
                    )
                } else {
                    parse_from(toks, i + 1, acc)
                }
            }
            _ => parse_from(toks, i + 1, acc),
        }
    }
}

#[via_fn]
proof fn parse_from_decreases(toks: Seq<TokenView>, i: int, acc: ScriptView) {
    if 0 <= i < toks.len() {
        lemma_scan_end(toks, i + 1);
    }
}

/// The document denoted by a whole token stream.
pub open spec fn parse_spec(toks: Seq<TokenView>) -> ScriptView {
    parse_from(toks, 0, empty_script_view())
}

/// The document denoted by an input text: its token stream, assembled.
pub open spec fn document_spec(input: Seq<char>) -> ScriptView {
    parse_spec(crate::lexer::lex_spec(input))
}

/// Character codes in the assembled document are unique by construction.
pub proof fn lemma_parse_keys_unique(toks: Seq<TokenView>, i: int, acc: ScriptView)
    requires
        keys_unique(acc.characters),
    ensures
        keys_unique(parse_from(toks, i, acc).characters),
    decreases toks.len() - i,
{
    if 0 <= i < toks.len() {
        match toks[i] {
            TokenView::EOF => {},
            TokenView::SectionHeader(name) => {
                let ls = lower_seq(name);
                if ls == "title"@ {
                    lemma_parse_keys_unique(
                        toks,
                        i + 1,
                        ScriptView { title: "Title Section"@, ..acc },
                    );
                } else if ls == "characters"@ {
                    lemma_scan_end(toks, i + 1);
                    lemma_chars_from_unique(toks, i + 1, Seq::empty());
                    lemma_parse_keys_unique(
                        toks,
                        scan_end(toks, i + 1),
                        ScriptView { characters: chars_from(toks, i + 1, Seq::empty()), ..acc },
                    );
                } else if ls == "script"@ {
                    lemma_scan_end(toks, i + 1);
                    lemma_parse_keys_unique(
                        toks,
                        scan_end(toks, i + 1),
                        ScriptView {
                            scenes: script_from(toks, i + 1, Seq::empty(), empty_scene_view()),
                            ..acc
                        },
                    );
                } else {
                    lemma_parse_keys_unique(toks, i + 1, acc);
                }
            }
            _ => {
                lemma_parse_keys_unique(toks, i + 1, acc);
            }
        }
    }
}

/// Character codes are unique in the document any input text denotes.
pub proof fn lemma_document_characters_unique(input: Seq<char>)
    ensures
        keys_unique(document_spec(input).characters),
{
    lemma_parse_keys_unique(crate::lexer::lex_spec(input), 0, empty_script_view());
}

/// Which top-level action the current token asks for.
enum Dispatch {
    Title,
    Characters,
    ScriptSection,
    Skip,
}

/// The document builder: a token vector and a cursor over it.
pub struct Parser {
    tokens: Vec<Token>,
    position: usize,
}

impl Parser {
    /// The views of the tokens under the cursor.
    pub closed spec fn toks(&self) -> Seq<TokenView> {
        token_views(self.tokens@)
    }

    /// The cursor position.
    pub closed spec fn pos(&self) -> int {
        self.position as int
    }

    pub fn new(tokens: Vec<Token>) -> (r: Parser)
        ensures
            r.toks() == token_views(tokens@),
            r.pos() == 0,
    {
        Parser { tokens, position: 0 }
    }

    /// The token under the cursor, or the `EOF` sentinel past the end.
    pub fn current_token(&self) -> (r: &Token)
        ensures
            r@ == if self.pos() < self.toks().len() {
                self.toks()[self.pos()]
            } else {
                TokenView::EOF
            },
    {
        if self.position < self.tokens.len() {
            &self.tokens[self.position]
        } else {
            &Token::EOF
        }
    }

    /// Whether the cursor is past the end or at the `EOF` sentinel.
    pub fn is_at_end(&self) -> (r: bool)
        ensures
            r == at_end(self.toks(), self.pos()),
    {
        if self.position >= self.tokens.len() {
            return true;
        }
        match self.current_token() {
            Token::EOF => true,
            _ => false,
        }
    }

    /// Whether the cursor stands on a section header, where both sub-parsers
    /// stop without consuming it.
    fn at_section_header(&self) -> (r: bool)
        ensures
            r == (self.pos() < self.toks().len() && self.toks()[self.pos()] is SectionHeader),
    {
        if self.position >= self.tokens.len() {
            return false;
        }
        match self.current_token() {
            Token::SectionHeader(_) => true,
            _ => false,
        }
    }

    /// Moves the cursor one token forward, unless it is finished.
    pub fn advance(&mut self)
        ensures
            final(self).toks() == old(self).toks(),
            final(self).pos() == advanced(old(self).toks(), old(self).pos()),
    {
        if !self.is_at_end() {
            let n = self.tokens.len();
            proof {
                assert(self.toks().len() == self.tokens@.len());
                assert(self.position < n);
            }
            self.position = self.position + 1;
        }
    }

    /// Assembles the whole document from the token stream. The grammar has
    /// no failing rule, so the result is always `Ok`, and its value is
    /// exactly the assembly of the tokens from the cursor on.
    pub fn parse(&mut self) -> (r: Result<Script, ParseError>)
        ensures
            final(self).toks() == old(self).toks(),
            match r {
                Ok(s) => s@ == parse_from(old(self).toks(), old(self).pos(), empty_script_view()),
                Err(_) => false,
            },
    {
        let ghost toks = self.toks();
        let ghost pos0 = self.pos();
        let mut script = Script::new();
        while !self.is_at_end()
            invariant
                self.toks() == toks,
                0 <= self.pos(),
                parse_from(toks, self.pos(), script@) == parse_from(
                    toks,
                    pos0,
                    empty_script_view(),
                ),
            decreases toks.len() - self.pos(),
        {
            let ghost p = self.pos();
            let ghost acc = script@;
            let d = match self.current_token() {
                Token::SectionHeader(section) => {
                    if eq_lowered(section.as_str(), "title") {
                        Dispatch::Title
                    } else if eq_lowered(section.as_str(), "characters") {
                        Dispatch::Characters
                    } else if eq_lowered(section.as_str(), "script") {
                        Dispatch::ScriptSection
                    } else {
                        Dispatch::Skip
                    }
                }
                _ => Dispatch::Skip,
            };
            match d {
                Dispatch::Title => {
                    script.title_section = String::from_str("Title Section");
                    self.advance();
                    proof {
                        assert(script@ == ScriptView { title: "Title Section"@, ..acc });
                        assert(parse_from(toks, p, acc) == parse_from(toks, p + 1, script@));
                    }
                }
                Dispatch::Characters => {
                    match self.parse_characters() {
                        Ok(m) => {
                            script.characters = m;
                        }
                        Err(e) => {
                            return Err(e);
                        }
                    }
                    proof {
                        lemma_scan_end(toks, p + 1);
                        assert(script@ == ScriptView {
                            characters: chars_from(toks, p + 1, Seq::empty()),
                            ..acc
                        });
                        assert(parse_from(toks, p, acc) == parse_from(
                            toks,
                            scan_end(toks, p + 1),
                            script@,
                        ));
                    }
                }
                Dispatch::ScriptSection => {
                    match self.parse_script() {
                        Ok(v) => {
                            script.scenes = v;
                        }
                        Err(e) => {
                            return Err(e);
                        }
                    }
                    proof {
                        lemma_scan_end(toks, p + 1);
                        assert(script@ == ScriptView {
                            scenes: script_from(toks, p + 1, Seq::empty(), empty_scene_view()),
                            ..acc
                        });
                        assert(parse_from(toks, p, acc) == parse_from(
                            toks,
                            scan_end(toks, p + 1),
                            script@,
                        ));
                    }
                }
                Dispatch::Skip => {
                    self.advance();
                    proof {
                        assert(parse_from(toks, p, acc) == parse_from(toks, p + 1, acc));
                    }
                }
            }
        }
        Ok(script)
    }

    /// Consumes character definitions after a characters header, up to the
    /// next section header or `EOF` (left unconsumed), into a fresh mapping;
    /// a later definition of a code overwrites an earlier one.
    pub fn parse_characters(&mut self) -> (r: Result<CharacterMap, ParseError>)
        ensures
            final(self).toks() == old(self).toks(),
            final(self).pos() == scan_end(
                old(self).toks(),
                advanced(old(self).toks(), old(self).pos()),
            ),
            match r {
                Ok(m) => m@ == chars_from(
                    old(self).toks(),
                    advanced(old(self).toks(), old(self).pos()),
                    Seq::empty(),
                ) && keys_unique(m@),
                Err(_) => false,
            },
    {
        let ghost toks = self.toks();
        let mut characters = CharacterMap::new();
        self.advance();
        let ghost p1 = self.pos();
        while !self.is_at_end() && !self.at_section_header()
            invariant
                self.toks() == toks,
                0 <= p1 <= self.pos(),
                keys_unique(characters@),
                chars_from(toks, self.pos(), characters@) == chars_from(toks, p1, Seq::empty()),
                scan_end(toks, self.pos()) == scan_end(toks, p1),
            decreases toks.len() - self.pos(),
        {
            let ghost p = self.pos();
            let ghost acc = characters@;
            let step = match self.current_token() {
                Token::CharacterDef { code, name } => Some((code.clone(), name.clone())),
                _ => None,
            };
            match step {
                Some((code, name)) => {
                    proof {
                        lemma_map_insert_keys_unique(acc, code@, name@);
                        assert(chars_from(toks, p, acc) == chars_from(
                            toks,
                            p + 1,
                            map_insert(acc, code@, name@),
                        ));
                    }
                    characters.insert(code, name);
                    self.advance();
                }
                None => {
                    self.advance();
                }
            }
        }
        proof {
            assert(scan_end(toks, self.pos()) == self.pos());
            assert(chars_from(toks, self.pos(), characters@) == characters@);
        }
        Ok(characters)
    }

    /// Consumes script content after a script header, up to the next section
    /// header or `EOF` (left unconsumed), assembling scenes; a scene joins
    /// the list only once it holds at least one element.
    pub fn parse_script(&mut self) -> (r: Result<Vec<Scene>, ParseError>)
        ensures
            final(self).toks() == old(self).toks(),
            final(self).pos() == scan_end(
                old(self).toks(),
                advanced(old(self).toks(), old(self).pos()),
            ),
            match r {
                Ok(v) => scene_views(v@) == script_from(
                    old(self).toks(),
                    advanced(old(self).toks(), old(self).pos()),
                    Seq::empty(),
                    empty_scene_view(),
                ),
                Err(_) => false,
            },
    {
        let ghost toks = self.toks();
        let mut scenes: Vec<Scene> = Vec::new();
        let mut current_scene = Scene::new(None);
        self.advance();
        let ghost p1 = self.pos();
        proof {
            assert(scene_views(scenes@) =~= Seq::<SceneView>::empty());
            assert(current_scene@ == empty_scene_view());
        }
        while !self.is_at_end() && !self.at_section_header()
            invariant
                self.toks() == toks,
                0 <= p1 <= self.pos(),
                script_from(toks, self.pos(), scene_views(scenes@), current_scene@)
                    == script_from(toks, p1, Seq::empty(), empty_scene_view()),
                scan_end(toks, self.pos()) == scan_end(toks, p1),
            decreases toks.len() - self.pos(),
        {
            let ghost p = self.pos();
            let ghost scs = scene_views(scenes@);
            let ghost cur = current_scene@;
            let step: Option<Token> = match self.current_token() {
                Token::LocationHeader(location) => Some(
                    Token::LocationHeader(location.clone()),
                ),
                Token::DialogueLine { speaker, text } => Some(
                    Token::DialogueLine { speaker: speaker.clone(), text: text.clone() },
                ),
                Token::NarrationLine(text) => Some(Token::NarrationLine(text.clone())),
                Token::ActionText(text) => Some(Token::ActionText(text.clone())),
                _ => None,
            };
            match step {
                Some(Token::LocationHeader(location)) => {
                    if !current_scene.elements.is_empty() {
                        proof {
                            assert(scene_views(scenes@.push(current_scene)) =~= scs.push(cur));
                        }
                        scenes.push(current_scene);
                    }
                    proof {
                        assert(scene_views(scenes@) == push_scene(scs, cur));
                    }
                    current_scene = Scene::new(Some(location));
                    self.advance();
                    proof {
                        assert(script_from(toks, p, scs, cur) == script_from(
                            toks,
                            p + 1,
                            push_scene(scs, cur),
                            current_scene@,
                        ));
                    }
                }
                Some(Token::DialogueLine { speaker, text }) => {
                    let element = ScriptElement::Dialogue {
                        speaker,
                        text,
                        actions: Vec::new(),
                    };
                    proof {
                        assert(string_views(Seq::<String>::empty()) =~= Seq::<Seq<char>>::empty());
                        assert(element_views(current_scene.elements@.push(element)) =~= cur
                            .elements
                            .push(element@));
                    }
                    current_scene.elements.push(element);
                    self.advance();
                    proof {
                        assert(current_scene@ == scene_add(cur, element@));
                        assert(script_from(toks, p, scs, cur) == script_from(
                            toks,
                            p + 1,
                            scs,
                            current_scene@,
                        ));
                    }
                }
                Some(Token::NarrationLine(text)) => {
                    let element = ScriptElement::Narration(text);
                    proof {
                        assert(element_views(current_scene.elements@.push(element)) =~= cur
                            .elements
                            .push(element@));
                    }
                    current_scene.elements.push(element);
                    self.advance();
                    proof {
                        assert(current_scene@ == scene_add(cur, element@));
                        assert(script_from(toks, p, scs, cur) == script_from(
                            toks,
                            p + 1,
                            scs,
                            current_scene@,
                        ));
                    }
                }
                Some(Token::ActionText(text)) => {
                    let element = ScriptElement::Action(text);
                    proof {
                        assert(element_views(current_scene.elements@.push(element)) =~= cur
                            .elements
                            .push(element@));
                    }
                    current_scene.elements.push(element);
                    self.advance();
                    proof {
                        assert(current_scene@ == scene_add(cur, element@));
                        assert(script_from(toks, p, scs, cur) == script_from(
                            toks,
                            p + 1,
                            scs,
                            current_scene@,
                        ));
                    }
                }
                _ => {
                    self.advance();
                }
            }
        }
        let ghost scs = scene_views(scenes@);
        let ghost cur = current_scene@;
        proof {
            assert(scan_end(toks, self.pos()) == self.pos());
            assert(script_from(toks, self.pos(), scs, cur) == push_scene(scs, cur));
        }
        if !current_scene.elements.is_empty() {
            proof {
                assert(scene_views(scenes@.push(current_scene)) =~= scs.push(cur));
            }
            scenes.push(current_scene);
        }
        proof {
            assert(scene_views(scenes@) == push_scene(scs, cur));
        }
        Ok(scenes)
    }
}

} // verus!
