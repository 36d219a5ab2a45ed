//! The validation rules: a flat set of independent checks over a finished
//! document. Errors block downstream rendering, warnings are surfaced only.
//! Each check appends to the collected lists exactly the findings that its
//! specification function computes from the document model.

use vstd::prelude::*;
use crate::ast::{
    CharacterMap, ElementView, Scene, SceneView, Script, ScriptView, map_contains, string_views,
};
use crate::text::{
    dec_rep, is_upper, is_upper_char, num_to_string, trim_spec, trim_str,
};

verus! {

/// Mathematical model of one finding.
pub struct ErrorView {
    pub line: Option<int>,
    pub column: Option<int>,
    pub message: Seq<char>,
    pub suggestion: Option<Seq<char>>,
}

/// One finding: a message, an optional source position, and an optional
/// suggestion.
#[derive(Debug, Clone, PartialEq)]
pub struct ValidationError {
    pub line: Option<usize>,
    pub column: Option<usize>,
    pub message: String,
    pub suggestion: Option<String>,
}

impl View for ValidationError {
    type V = ErrorView;

    open spec fn view(&self) -> ErrorView {
        ErrorView {
            line: match self.line {
                Some(l) => Some(l as int),
                None => None,
            },
            column: match self.column {
                Some(c) => Some(c as int),
                None => None,
            },
            message: self.message@,
            suggestion: match self.suggestion {
                Some(ref s) => Some(s@),
                None => None,
            },
        }
    }
}

impl ValidationError {
    pub fn new(message: String) -> (r: ValidationError)
        ensures
            r@ == (ErrorView {
                line: None,
                column: None,
                message: message@,
                suggestion: None,
            }),
    {
        ValidationError { line: None, column: None, message, suggestion: None }
    }

    pub fn with_location(self, line: usize, column: usize) -> (r: ValidationError)
        ensures
            r@ == (ErrorView {
                line: Some(line as int),
                column: Some(column as int),
                ..self@
            }),
    {
        ValidationError { line: Some(line), column: Some(column), ..self }
    }

    pub fn with_suggestion(self, suggestion: String) -> (r: ValidationError)
        ensures
            r@ == (ErrorView { suggestion: Some(suggestion@), ..self@ }),
    {
        ValidationError { suggestion: Some(suggestion), ..self }
    }
}

/// The views of a finding vector, in order.
pub open spec fn error_views(v: Seq<ValidationError>) -> Seq<ErrorView> {
    v.map_values(|e: ValidationError| e@)
}

/// A finding with a message and a suggestion, no source position: the shape
/// every current rule produces.
pub open spec fn finding(msg: Seq<char>, sugg: Seq<char>) -> ErrorView {
    ErrorView { line: None, column: None, message: msg, suggestion: Some(sugg) }
}

/// Errors of the structural check: each of the three sections must be
/// present in the document.
pub open spec fn structure_errors(s: ScriptView) -> Seq<ErrorView> {
    (if s.title.len() == 0 {
        seq![
            finding(
                "Title section is missing"@,
                "Add a title section with '# Title' header"@,
            ),
        ]
    } else {
        Seq::empty()
    }) + (if s.characters.len() == 0 {
        seq![
            finding(
                "Character definitions are missing"@,
                "Add character definitions in the '## Characters' section"@,
            ),
        ]
    } else {
        Seq::empty()
    }) + (if s.scenes.len() == 0 {
        seq![
            finding(
                "Script content is missing"@,
                "Add script content in the '## Script' section"@,
            ),
        ]
    } else {
        Seq::empty()
    })
}

/// Every character of the code is an ASCII uppercase letter.
pub open spec fn all_upper(s: Seq<char>) -> bool {
    forall|i: int| 0 <= i < s.len() ==> is_upper_char(s[i])
}

/// The warning raised when the reserved narrator code is defined.
pub open spec fn narrator_warning() -> ErrorView {
    finding(
        "Character code 'N' is reserved for narrator"@,
        "Consider using a different code for this character"@,
    )
}

/// The warnings of the reserved-code check.
pub open spec fn narrator_warnings(chars: Seq<(Seq<char>, Seq<char>)>) -> Seq<ErrorView> {
    if map_contains(chars, "N"@) {
        seq![narrator_warning()]
    } else {
        Seq::empty()
    }
}

/// Errors of one character definition: a code with a non-uppercase
/// character, an empty code, an empty (after trimming) name.
pub open spec fn entry_errors(e: (Seq<char>, Seq<char>)) -> Seq<ErrorView> {
    (if !all_upper(e.0) {
        seq![
            finding(
                "Invalid character code '"@ + e.0 + "': must contain only uppercase letters"@,
                "Use only uppercase letters for character codes"@,
            ),
        ]
    } else {
        Seq::empty()
    }) + (if e.0.len() == 0 {
        seq![
            finding("Character code cannot be empty"@, "Provide a valid character code"@),
        ]
    } else {
        Seq::empty()
    }) + (if trim_spec(e.1).len() == 0 {
        seq![
            finding(
                "Character name for code '"@ + e.0 + "' cannot be empty"@,
                "Provide a valid character name"@,
            ),
        ]
    } else {
        Seq::empty()
    })
}

/// Errors of the first `i` character definitions, in order.
pub open spec fn entries_errors(chars: Seq<(Seq<char>, Seq<char>)>, i: int) -> Seq<ErrorView>
    decreases i,
{
    if i <= 0 {
        Seq::empty()
    } else {
        entries_errors(chars, i - 1) + entry_errors(chars[i - 1])
    }
}

/// Whether the code of some entry before position `i` equals `k`.
pub open spec fn key_among(chars: Seq<(Seq<char>, Seq<char>)>, i: int, k: Seq<char>) -> bool {
    exists|j: int| 0 <= j < i && chars[j].0 == k
}

/// Duplicate-code errors over the first `i` definitions: one per entry
/// whose code already appeared earlier.
pub open spec fn dup_errors(chars: Seq<(Seq<char>, Seq<char>)>, i: int) -> Seq<ErrorView>
    decreases i,
{
    if i <= 0 {
        Seq::empty()
    } else {
        dup_errors(chars, i - 1) + (if key_among(chars, i - 1, chars[i - 1].0) {
            seq![
                finding(
                    "Duplicate character code '"@ + chars[i - 1].0 + "'"@,
                    "Use unique codes for each character"@,
                ),
            ]
        } else {
            Seq::empty()
        })
    }
}

/// Whether this element is a dialogue spoken by `code`.
pub open spec fn elem_speaks(e: ElementView, code: Seq<char>) -> bool {
    match e {
        ElementView::Dialogue { speaker, .. } => speaker == code,
        _ => false,
    }
}

/// Whether any dialogue in the document is spoken by `code`.
pub open spec fn spoken(scenes: Seq<SceneView>, code: Seq<char>) -> bool {
    exists|a: int, b: int|
        0 <= a < scenes.len() && 0 <= b < scenes[a].elements.len() && elem_speaks(
            #[trigger] scenes[a].elements[b],
            code,
        )
}

/// The error raised for a dialogue whose speaker is neither defined nor the
/// reserved narrator code.
pub open spec fn speaker_errors(
    chars: Seq<(Seq<char>, Seq<char>)>,
    sp: Seq<char>,
) -> Seq<ErrorView> {
    if !map_contains(chars, sp) && sp != "N"@ {
        seq![
            finding(
                "Undefined character code '"@ + sp + "' used in dialogue"@,
                "Add '"@ + sp + ": Character Name' to the character definitions"@,
            ),
        ]
    } else {
        Seq::empty()
    }
}

/// Empty-action errors over the first `i` actions of a dialogue.
pub open spec fn action_errors(acts: Seq<Seq<char>>, i: int) -> Seq<ErrorView>
    decreases i,
{
    if i <= 0 {
        Seq::empty()
    } else {
        action_errors(acts, i - 1) + (if trim_spec(acts[i - 1]).len() == 0 {
            seq![
                finding(
                    "Empty action description"@,
                    "Provide action text or remove the action"@,
                ),
            ]
        } else {
            Seq::empty()
        })
    }
}

/// Errors of one scene element.
pub open spec fn element_errors(
    chars: Seq<(Seq<char>, Seq<char>)>,
    e: ElementView,
) -> Seq<ErrorView> {
    match e {
        ElementView::Dialogue { speaker, text, actions } => speaker_errors(chars, speaker) + (
        if trim_spec(text).len() == 0 {
            seq![
                finding(
                    "Empty dialogue for character '"@ + speaker + "'"@,
                    "Provide dialogue text or remove the line"@,
                ),
            ]
        } else {
            Seq::empty()
        }) + action_errors(actions, actions.len() as int),
        ElementView::Narration(t) => if trim_spec(t).len() == 0 {
            seq![
                finding("Empty narration text"@, "Provide narration text or remove the line"@),
            ]
        } else {
            Seq::empty()
        },
        ElementView::Action(t) => if trim_spec(t).len() == 0 {
            seq![finding("Empty action text"@, "Provide action text or remove the line"@)]
        } else {
            Seq::empty()
        },
    }
}

/// Errors of the first `i` elements of one scene.
pub open spec fn elements_errors(
    chars: Seq<(Seq<char>, Seq<char>)>,
    elems: Seq<ElementView>,
    i: int,
) -> Seq<ErrorView>
    decreases i,
{
    if i <= 0 {
        Seq::empty()
    } else {
        elements_errors(chars, elems, i - 1) + element_errors(chars, elems[i - 1])
    }
}

/// Content errors of the first `i` scenes.
pub open spec fn content_errors(
    chars: Seq<(Seq<char>, Seq<char>)>,
    scenes: Seq<SceneView>,
    i: int,
) -> Seq<ErrorView>
    decreases i,
{
    if i <= 0 {
        Seq::empty()
    } else {
        content_errors(chars, scenes, i - 1) + elements_errors(
            chars,
            scenes[i - 1].elements,
            scenes[i - 1].elements.len() as int,
        )
    }
}

/// The warning for scene number `idx1` (1-indexed) having no content.
pub open spec fn no_content_warning(idx1: int, sugg: Seq<char>) -> ErrorView {
    finding("Scene "@ + dec_rep(idx1) + " has no content"@, sugg)
}

/// No-content warnings over the first `i` scenes, 1-indexed in the message.
pub open spec fn empty_scene_warns(scenes: Seq<SceneView>, i: int, sugg: Seq<char>) -> Seq<
    ErrorView,
>
    decreases i,
{
    if i <= 0 {
        Seq::empty()
    } else {
        empty_scene_warns(scenes, i - 1, sugg) + (if scenes[i - 1].elements.len() == 0 {
            seq![no_content_warning(i, sugg)]
        } else {
            Seq::empty()
        })
    }
}

/// Unused-definition warnings over the first `i` character entries: one per
/// defined code that no dialogue speaks.
pub open spec fn unused_warns(
    chars: Seq<(Seq<char>, Seq<char>)>,
    scenes: Seq<SceneView>,
    i: int,
) -> Seq<ErrorView>
    decreases i,
{
    if i <= 0 {
        Seq::empty()
    } else {
        unused_warns(chars, scenes, i - 1) + (if !spoken(scenes, chars[i - 1].0) {
            seq![
                finding(
                    "Character '"@ + chars[i - 1].1 + "' ("@ + chars[i - 1].0
                        + ") is defined but never used"@,
                    "Remove unused character or add dialogue for this character"@,
                ),
            ]
        } else {
            Seq::empty()
        })
    }
}

/// Empty-location errors over the first `i` scenes.
pub open spec fn location_errors(scenes: Seq<SceneView>, i: int) -> Seq<ErrorView>
    decreases i,
{
    if i <= 0 {
        Seq::empty()
    } else {
        location_errors(scenes, i - 1) + (match scenes[i - 1].location {
            Some(l) => if trim_spec(l).len() == 0 {
                seq![
                    finding("Scene location cannot be empty"@, "Provide a valid location name"@),
                ]
            } else {
                Seq::empty()
            },
            None => Seq::empty(),
        })
    }
}

/// All errors the validator collects, in collection order.
pub open spec fn all_errors(s: ScriptView) -> Seq<ErrorView> {
    structure_errors(s) + entries_errors(s.characters, s.characters.len() as int) + dup_errors(
        s.characters,
        s.characters.len() as int,
    ) + content_errors(s.characters, s.scenes, s.scenes.len() as int) + location_errors(
        s.scenes,
        s.scenes.len() as int,
    )
}

/// All warnings the validator collects, in collection order. An empty scene
/// is reported twice, by the content check and by the formatting check, with
/// different suggestions; the narrator warning is likewise raised twice.
pub open spec fn all_warnings(s: ScriptView) -> Seq<ErrorView> {
    narrator_warnings(s.characters) + empty_scene_warns(
        s.scenes,
        s.scenes.len() as int,
        "Add dialogue, narration, or action to the scene"@,
    ) + unused_warns(s.characters, s.scenes, s.characters.len() as int) + narrator_warnings(
        s.characters,
    ) + empty_scene_warns(
        s.scenes,
        s.scenes.len() as int,
        "Add content to the scene or remove it"@,
    )
}

/// The rendering of one finding, behind a severity prefix: the message,
/// a position when one is present, and the suggestion on its own line.
pub open spec fn formatted(prefix: Seq<char>, e: ErrorView) -> Seq<char> {
    let base = prefix + e.message;
    let located = if e.line is Some && e.column is Some {
        base + " (line "@ + dec_rep(e.line->0) + ", column "@ + dec_rep(e.column->0) + ")"@
    } else {
        base
    };
    match e.suggestion {
        Some(s) => located + "\n  Suggestion: "@ + s,
        None => located,
    }
}

/// All findings of a list rendered with a prefix.
pub open spec fn formatted_all(prefix: Seq<char>, errs: Seq<ErrorView>) -> Seq<Seq<char>> {
    errs.map_values(|e: ErrorView| formatted(prefix, e))
}

/// Lines joined with a newline between each pair.
pub open spec fn join_lines(msgs: Seq<Seq<char>>) -> Seq<char>
    decreases msgs.len(),
{
    if msgs.len() == 0 {
        Seq::empty()
    } else if msgs.len() == 1 {
        msgs[0]
    } else {
        join_lines(msgs.drop_last()) + seq!['\n'] + msgs.last()
    }
}

/// The message `validate` fails with when the document has errors.
pub open spec fn failure_message(s: ScriptView) -> Seq<char> {
    "Validation failed:\n"@ + join_lines(formatted_all("ERROR: "@, all_errors(s)))
}

/// The validator: the errors and warnings collected so far.
pub struct Validator {
    errors: Vec<ValidationError>,
    warnings: Vec<ValidationError>,
}

impl Validator {
    /// The collected errors.
    pub closed spec fn errs(&self) -> Seq<ErrorView> {
        error_views(self.errors@)
    }

    /// The collected warnings.
    pub closed spec fn warns(&self) -> Seq<ErrorView> {
        error_views(self.warnings@)
    }

    pub fn new() -> (r: Validator)
        ensures
            r.errs() == Seq::<ErrorView>::empty(),
            r.warns() == Seq::<ErrorView>::empty(),
    {
        let r = Validator { errors: Vec::new(), warnings: Vec::new() };
        proof {
            assert(r.errs() =~= Seq::<ErrorView>::empty());
            assert(r.warns() =~= Seq::<ErrorView>::empty());
        }
        r
    }

    fn push_error(&mut self, msg: &str, sugg: &str)
        ensures
            final(self).errs() == old(self).errs().push(finding(msg@, sugg@)),
            final(self).warns() == old(self).warns(),
    {
        let e = ValidationError::new(String::from_str(msg)).with_suggestion(
            String::from_str(sugg),
        );
        proof {
            assert(error_views(self.errors@.push(e)) =~= self.errs().push(finding(msg@, sugg@)));
        }
        self.errors.push(e);
    }

    fn push_warning(&mut self, msg: &str, sugg: &str)
        ensures
            final(self).warns() == old(self).warns().push(finding(msg@, sugg@)),
            final(self).errs() == old(self).errs(),
    {
        let e = ValidationError::new(String::from_str(msg)).with_suggestion(
            String::from_str(sugg),
        );
        proof {
            assert(error_views(self.warnings@.push(e)) =~= self.warns().push(
                finding(msg@, sugg@),
            ));
        }
        self.warnings.push(e);
    }

    fn push_error_string(&mut self, msg: String, sugg: &str)
        ensures
            final(self).errs() == old(self).errs().push(finding(msg@, sugg@)),
            final(self).warns() == old(self).warns(),
    {
        let e = ValidationError::new(msg).with_suggestion(String::from_str(sugg));
        proof {
            assert(error_views(self.errors@.push(e)) =~= self.errs().push(finding(msg@, sugg@)));
        }
        self.errors.push(e);
    }

    fn push_warning_string(&mut self, msg: String, sugg: &str)
        ensures
            final(self).warns() == old(self).warns().push(finding(msg@, sugg@)),
            final(self).errs() == old(self).errs(),
    {
        let e = ValidationError::new(msg).with_suggestion(String::from_str(sugg));
        proof {
            assert(error_views(self.warnings@.push(e)) =~= self.warns().push(
                finding(msg@, sugg@),
            ));
        }
        self.warnings.push(e);
    }

    /// The structural check: title, character definitions and script content
    /// must all be present.
    pub fn validate_script_structure(&mut self, script: &Script)
        ensures
            final(self).errs() == old(self).errs() + structure_errors(script@),
            final(self).warns() == old(self).warns(),
    {
        let ghost e0 = self.errs();
        if script.title_section.as_str().is_empty() {
            self.push_error(
                "Title section is missing",
                "Add a title section with '# Title' header",
            );
        }
        if script.characters.is_empty() {
            self.push_error(
                "Character definitions are missing",
                "Add character definitions in the '## Characters' section",
            );
        }
        if script.scenes.is_empty() {
            self.push_error(
                "Script content is missing",
                "Add script content in the '## Script' section",
            );
        }
        proof {
            assert(final(self).errs() =~= e0 + structure_errors(script@));
        }
    }

    /// The character-definition check: the reserved narrator code raises a
    /// warning; a malformed code, an empty code or an empty name raises an
    /// error per entry; a duplicated code raises an error (the mapping is
    /// built with unique codes, so this arises only on documents built by
    /// hand).
    pub fn validate_characters(&mut self, script: &Script)
        ensures
            final(self).errs() == old(self).errs() + entries_errors(
                script@.characters,
                script@.characters.len() as int,
            ) + dup_errors(script@.characters, script@.characters.len() as int),
            final(self).warns() == old(self).warns() + narrator_warnings(script@.characters),
    {
        let ghost chars = script@.characters;
        let ghost e0 = self.errs();
        let ghost w0 = self.warns();
        if script.characters.contains_key("N") {
            self.push_warning(
                "Character code 'N' is reserved for narrator",
                "Consider using a different code for this character",
            );
        }
        proof {
            assert(self.warns() =~= w0 + narrator_warnings(chars));
        }
        let n = script.characters.len();
        let mut i: usize = 0;
        while i < n
            invariant
                n == chars.len(),
                chars == script@.characters,
                0 <= i <= n,
                self.errs() == e0 + entries_errors(chars, i as int),
                self.warns() == w0 + narrator_warnings(chars),
            decreases n - i,
        {
            let ghost before = self.errs();
            let pair = script.characters.pair_at(i);
            let code_ok = is_all_upper(pair.0.as_str());
            if !code_ok {
                let mut msg = String::from_str("Invalid character code '");
                msg.append(pair.0.as_str());
                msg.append("': must contain only uppercase letters");
                self.push_error_string(msg, "Use only uppercase letters for character codes");
            }
            if pair.0.as_str().is_empty() {
                self.push_error("Character code cannot be empty", "Provide a valid character code");
            }
            if trim_str(pair.1.as_str()).is_empty() {
                let mut msg = String::from_str("Character name for code '");
                msg.append(pair.0.as_str());
                msg.append("' cannot be empty");
                self.push_error_string(msg, "Provide a valid character name");
            }
            proof {
                assert(self.errs() =~= before + entry_errors(chars[i as int]));
                assert(self.errs() =~= e0 + entries_errors(chars, i as int + 1));
            }
            i = i + 1;
        }
        let mut i: usize = 0;
        while i < n
            invariant
                n == chars.len(),
                chars == script@.characters,
                0 <= i <= n,
                self.errs() == e0 + entries_errors(chars, n as int) + dup_errors(chars, i as int),
                self.warns() == w0 + narrator_warnings(chars),
            decreases n - i,
        {
            let ghost before = self.errs();
            let seen = code_seen_before(&script.characters, i);
            if seen {
                let pair = script.characters.pair_at(i);
                let mut msg = String::from_str("Duplicate character code '");
                msg.append(pair.0.as_str());
                msg.append("'");
                self.push_error_string(msg, "Use unique codes for each character");
            }
            proof {
                assert(self.errs() =~= e0 + entries_errors(chars, n as int) + dup_errors(
                    chars,
                    i as int + 1,
                ));
            }
            i = i + 1;
        }
    }

    /// The content check: dialogues must name a defined speaker or the
    /// narrator code and carry text; narration, action and dialogue-action
    /// texts must be non-empty; an empty scene raises a warning, and so does
    /// every defined character that never speaks.
    pub fn validate_script_content(&mut self, script: &Script)
        ensures
            final(self).errs() == old(self).errs() + content_errors(
                script@.characters,
                script@.scenes,
                script@.scenes.len() as int,
            ),
            final(self).warns() == old(self).warns() + empty_scene_warns(
                script@.scenes,
                script@.scenes.len() as int,
                "Add dialogue, narration, or action to the scene"@,
            ) + unused_warns(
                script@.characters,
                script@.scenes,
                script@.characters.len() as int,
            ),
    {
        let ghost chars = script@.characters;
        let ghost scenes = script@.scenes;
        let ghost sugg = "Add dialogue, narration, or action to the scene"@;
        let ghost e0 = self.errs();
        let ghost w0 = self.warns();
        let n_scenes = script.scenes.len();
        let mut si: usize = 0;
        while si < n_scenes
            invariant
                n_scenes == scenes.len(),
                chars == script@.characters,
                scenes == script@.scenes,
                sugg == "Add dialogue, narration, or action to the scene"@,
                0 <= si <= n_scenes,
                self.errs() == e0 + content_errors(chars, scenes, si as int),
                self.warns() == w0 + empty_scene_warns(scenes, si as int, sugg),
            decreases n_scenes - si,
        {
            let ghost se0 = self.errs();
            let scene = &script.scenes[si];
            let ghost sv = scene@;
            let n_elems = scene.elements.len();
            proof {
                assert(sv == scenes[si as int]);
                assert(n_elems == sv.elements.len());
            }
            let mut ei: usize = 0;
            while ei < n_elems
                invariant
                    n_elems == sv.elements.len(),
                    chars == script@.characters,
                    sv == scene@,
                    0 <= ei <= n_elems,
                    self.errs() == se0 + elements_errors(chars, sv.elements, ei as int),
                    self.warns() == w0 + empty_scene_warns(scenes, si as int, sugg),
                    scenes == script@.scenes,
                    sugg == "Add dialogue, narration, or action to the scene"@,
                decreases n_elems - ei,
            {
                let ghost ee0 = self.errs();
                let element = &scene.elements[ei];
                proof {
                    assert(element@ == sv.elements[ei as int]);
                }
                match element {
                    crate::ast::ScriptElement::Dialogue { speaker, text, actions } => {
                        let defined = script.characters.contains_key(speaker.as_str());
                        if !defined && !crate::text::str_eq(speaker.as_str(), "N") {
                            let mut msg = String::from_str("Undefined character code '");
                            msg.append(speaker.as_str());
                            msg.append("' used in dialogue");
                            let mut sg = String::from_str("Add '");
                            sg.append(speaker.as_str());
                            sg.append(": Character Name' to the character definitions");
                            let e = ValidationError::new(msg).with_suggestion(sg);
                            proof {
                                assert(error_views(self.errors@.push(e)) =~= self.errs().push(
                                    e@,
                                ));
                            }
                            self.errors.push(e);
                        }
                        proof {
                            assert(self.errs() =~= ee0 + speaker_errors(chars, speaker@));
                        }
                        let ghost ed0 = self.errs();
                        if trim_str(text.as_str()).is_empty() {
                            let mut msg = String::from_str("Empty dialogue for character '");
                            msg.append(speaker.as_str());
                            msg.append("'");
                            self.push_error_string(msg, "Provide dialogue text or remove the line");
                        }
                        let ghost ea0 = self.errs();
                        let ghost acts = string_views(actions@);
                        let n_acts = actions.len();
                        let mut ai: usize = 0;
                        while ai < n_acts
                            invariant
                                n_acts == acts.len(),
                                acts == string_views(actions@),
                                0 <= ai <= n_acts,
                                self.errs() == ea0 + action_errors(acts, ai as int),
                                self.warns() == w0 + empty_scene_warns(scenes, si as int, sugg),
                                scenes == script@.scenes,
                                sugg == "Add dialogue, narration, or action to the scene"@,
                            decreases n_acts - ai,
                        {
                            if trim_str(actions[ai].as_str()).is_empty() {
                                self.push_error(
                                    "Empty action description",
                                    "Provide action text or remove the action",
                                );
                            }
                            proof {
                                assert(self.errs() =~= ea0 + action_errors(acts, ai as int + 1));
                            }
                            ai = ai + 1;
                        }
                        proof {
                            assert(self.errs() =~= ee0 + element_errors(
                                chars,
                                sv.elements[ei as int],
                            ));
                        }
                    }
                    crate::ast::ScriptElement::Narration(text) => {
                        if trim_str(text.as_str()).is_empty() {
                            self.push_error(
                                "Empty narration text",
                                "Provide narration text or remove the line",
                            );
                        }
                        proof {
                            assert(self.errs() =~= ee0 + element_errors(
                                chars,
                                sv.elements[ei as int],
                            ));
                        }
                    }
                    crate::ast::ScriptElement::Action(text) => {
                        if trim_str(text.as_str()).is_empty() {
                            self.push_error(
                                "Empty action text",
                                "Provide action text or remove the line",
                            );
                        }
                        proof {
                            assert(self.errs() =~= ee0 + element_errors(
                                chars,
                                sv.elements[ei as int],
                            ));
                        }
                    }
                }
                proof {
                    assert(self.errs() =~= se0 + elements_errors(
                        chars,
                        sv.elements,
                        ei as int + 1,
                    ));
                }
                ei = ei + 1;
            }
            if scene.elements.is_empty() {
                let mut msg = String::from_str("Scene ");
                msg.append(num_to_string(si + 1).as_str());
                msg.append(" has no content");
                self.push_warning_string(msg, "Add dialogue, narration, or action to the scene");
            }
            proof {
                assert(self.errs() =~= e0 + content_errors(chars, scenes, si as int + 1));
                assert(self.warns() =~= w0 + empty_scene_warns(scenes, si as int + 1, sugg));
            }
            si = si + 1;
        }
        let ghost wu0 = self.warns();
        let n_chars = script.characters.len();
        let mut ci: usize = 0;
        while ci < n_chars
            invariant
                n_chars == chars.len(),
                chars == script@.characters,
                scenes == script@.scenes,
                0 <= ci <= n_chars,
                self.errs() == e0 + content_errors(chars, scenes, scenes.len() as int),
                self.warns() == wu0 + unused_warns(chars, scenes, ci as int),
            decreases n_chars - ci,
        {
            let pair = script.characters.pair_at(ci);
            if !is_spoken(&script.scenes, pair.0.as_str()) {
                let mut msg = String::from_str("Character '");
                msg.append(pair.1.as_str());
                msg.append("' (");
                msg.append(pair.0.as_str());
                msg.append(") is defined but never used");
                self.push_warning_string(
                    msg,
                    "Remove unused character or add dialogue for this character",
                );
            }
            proof {
                assert(self.warns() =~= wu0 + unused_warns(chars, scenes, ci as int + 1));
            }
            ci = ci + 1;
        }
    }

    /// The reserved-keyword check: the narrator code must not be defined as
    /// a character.
    pub fn validate_reserved_keywords(&mut self, script: &Script)
        ensures
            final(self).errs() == old(self).errs(),
            final(self).warns() == old(self).warns() + narrator_warnings(script@.characters),
    {
        let ghost w0 = self.warns();
        if script.characters.contains_key("N") {
            self.push_warning(
                "Character code 'N' is reserved for narrator",
                "Consider using a different code for this character",
            );
        }
        proof {
            assert(self.warns() =~= w0 + narrator_warnings(script@.characters));
        }
    }

    /// The formatting check: an empty scene raises a warning, a present but
    /// blank location raises an error.
    pub fn validate_formatting(&mut self, script: &Script)
        ensures
            final(self).errs() == old(self).errs() + location_errors(
                script@.scenes,
                script@.scenes.len() as int,
            ),
            final(self).warns() == old(self).warns() + empty_scene_warns(
                script@.scenes,
                script@.scenes.len() as int,
                "Add content to the scene or remove it"@,
            ),
    {
        let ghost scenes = script@.scenes;
        let ghost sugg = "Add content to the scene or remove it"@;
        let ghost e0 = self.errs();
        let ghost w0 = self.warns();
        let n = script.scenes.len();
        let mut i: usize = 0;
        while i < n
            invariant
                n == scenes.len(),
                scenes == script@.scenes,
                sugg == "Add content to the scene or remove it"@,
                0 <= i <= n,
                self.errs() == e0 + location_errors(scenes, i as int),
                self.warns() == w0 + empty_scene_warns(scenes, i as int, sugg),
            decreases n - i,
        {
            let scene = &script.scenes[i];
            if scene.elements.is_empty() {
                let mut msg = String::from_str("Scene ");
                msg.append(num_to_string(i + 1).as_str());
                msg.append(" has no content");
                self.push_warning_string(msg, "Add content to the scene or remove it");
            }
            match &scene.location {
                Some(location) => {
                    if trim_str(location.as_str()).is_empty() {
                        self.push_error(
                            "Scene location cannot be empty",
                            "Provide a valid location name",
                        );
                    }
                }
                None => {},
            }
            proof {
                assert(self.errs() =~= e0 + location_errors(scenes, i as int + 1));
                assert(self.warns() =~= w0 + empty_scene_warns(scenes, i as int + 1, sugg));
            }
            i = i + 1;
        }
    }

    /// Runs every check on a fresh slate. Succeeds exactly when no check
    /// raised an error; fails with all error messages joined, one per line,
    /// behind a fixed heading. Warnings are collected either way and can be
    /// read back with `warning_messages`.
    pub fn validate(&mut self, script: &Script) -> (r: Result<(), String>)
        ensures
            final(self).errs() == all_errors(script@),
            final(self).warns() == all_warnings(script@),
            match r {
                Ok(_) => all_errors(script@).len() == 0,
                Err(msg) => all_errors(script@).len() > 0 && msg@ == failure_message(script@),
            },
    {
        self.errors.clear();
        self.warnings.clear();
        proof {
            assert(self.errs() =~= Seq::<ErrorView>::empty());
            assert(self.warns() =~= Seq::<ErrorView>::empty());
        }
        self.validate_script_structure(script);
        self.validate_characters(script);
        self.validate_script_content(script);
        self.validate_reserved_keywords(script);
        self.validate_formatting(script);
        proof {
            assert(self.errs() =~= all_errors(script@));
            assert(self.warns() =~= all_warnings(script@));
        }
        if self.errors.len() > 0 {
            let mut msg = String::from_str("Validation failed:\n");
            let joined = join_formatted("ERROR: ", &self.errors);
            msg.append(joined.as_str());
            return Err(msg);
        }
        Ok(())
    }

    /// Renders one error finding.
    pub fn format_error(&self, error: &ValidationError) -> (r: String)
        ensures
            r@ == formatted("ERROR: "@, error@),
    {
        format_finding("ERROR: ", error)
    }

    /// Renders one warning finding.
    pub fn format_warning(&self, warning: &ValidationError) -> (r: String)
        ensures
            r@ == formatted("WARNING: "@, warning@),
    {
        format_finding("WARNING: ", warning)
    }

    /// The collected warnings, rendered one per entry.
    pub fn warning_messages(&self) -> (r: Vec<String>)
        ensures
            string_views(r@) == formatted_all("WARNING: "@, self.warns()),
    {
        let mut out: Vec<String> = Vec::new();
        let n = self.warnings.len();
        let mut i: usize = 0;
        proof {
            assert(string_views(out@) =~= formatted_all("WARNING: "@, self.warns()).take(0));
        }
        while i < n
            invariant
                n == self.warnings@.len(),
                0 <= i <= n,
                string_views(out@) == formatted_all("WARNING: "@, self.warns()).take(i as int),
            decreases n - i,
        {
            let m = format_finding("WARNING: ", &self.warnings[i]);
            proof {
                assert(string_views(out@.push(m)) =~= string_views(out@).push(m@));
                assert(formatted_all("WARNING: "@, self.warns()).take(i as int + 1)
                    =~= formatted_all("WARNING: "@, self.warns()).take(i as int).push(
                    formatted("WARNING: "@, self.warns()[i as int]),
                ));
            }
            out.push(m);
            i = i + 1;
        }
        proof {
            assert(formatted_all("WARNING: "@, self.warns()).take(n as int) =~= formatted_all(
                "WARNING: "@,
                self.warns(),
            ));
        }
        out
    }
}

/// Whether every character of the slice is an ASCII uppercase letter.
fn is_all_upper(s: &str) -> (r: bool)
    ensures
        r == all_upper(s@),
{
    let n = s.unicode_len();
    let mut i: usize = 0;
    while i < n
        invariant
            n == s@.len(),
            0 <= i <= n,
            forall|j: int| 0 <= j < i ==> is_upper_char(s@[j]),
        decreases n - i,
    {
        if !is_upper(s.get_char(i)) {
            return false;
        }
        i = i + 1;
    }
    true
}

/// Whether the code of entry `i` already appears among the earlier entries.
fn code_seen_before(map: &CharacterMap, i: usize) -> (r: bool)
    requires
        i < map@.len(),
    ensures
        r == key_among(map@, i as int, map@[i as int].0),
{
    let mut j: usize = 0;
    while j < i
        invariant
            i < map@.len(),
            0 <= j <= i,
            forall|k: int| 0 <= k < j ==> map@[k].0 != map@[i as int].0,
        decreases i - j,
    {
        if crate::text::str_eq(map.pair_at(j).0.as_str(), map.pair_at(i).0.as_str()) {
            proof {
                assert(map@[j as int].0 == map@[i as int].0);
            }
            return true;
        }
        j = j + 1;
    }
    proof {
        if key_among(map@, i as int, map@[i as int].0) {
            let w = choose|w: int| 0 <= w < i && map@[w].0 == map@[i as int].0;
            assert(map@[w].0 != map@[i as int].0);
        }
    }
    false
}

/// Whether any dialogue in the scene list is spoken by `code`.
fn is_spoken(scenes: &Vec<Scene>, code: &str) -> (r: bool)
    ensures
        r == spoken(crate::ast::scene_views(scenes@), code@),
{
    let ghost sv = crate::ast::scene_views(scenes@);
    let n = scenes.len();
    let mut a: usize = 0;
    while a < n
        invariant
            n == sv.len(),
            sv == crate::ast::scene_views(scenes@),
            0 <= a <= n,
            forall|x: int, y: int|
                0 <= x < a && 0 <= y < sv[x].elements.len() ==> !elem_speaks(
                    #[trigger] sv[x].elements[y],
                    code@,
                ),
        decreases n - a,
    {
        let scene = &scenes[a];
        let m = scene.elements.len();
        let mut b: usize = 0;
        proof {
            assert(scene@ == sv[a as int]);
        }
        while b < m
            invariant
                m == sv[a as int].elements.len(),
                a < sv.len(),
                sv == crate::ast::scene_views(scenes@),
                scene@ == sv[a as int],
                0 <= b <= m,
                forall|y: int| 0 <= y < b ==> !elem_speaks(
                    #[trigger] sv[a as int].elements[y],
                    code@,
                ),
            decreases m - b,
        {
            match &scene.elements[b] {
                crate::ast::ScriptElement::Dialogue { speaker, .. } => {
                    if crate::text::str_eq(speaker.as_str(), code) {
                        proof {
                            assert(elem_speaks(sv[a as int].elements[b as int], code@));
                        }
                        return true;
                    }
                }
                _ => {},
            }
            proof {
                assert(!elem_speaks(sv[a as int].elements[b as int], code@));
            }
            b = b + 1;
        }
        a = a + 1;
    }
    proof {
        if spoken(sv, code@) {
            let (x, y) = choose|x: int, y: int|
                0 <= x < sv.len() && 0 <= y < sv[x].elements.len() && elem_speaks(
                    #[trigger] sv[x].elements[y],
                    code@,
                );
            assert(!elem_speaks(sv[x].elements[y], code@));
        }
    }
    false
}

/// Renders one finding behind a severity prefix.
fn format_finding(prefix: &str, e: &ValidationError) -> (r: String)
    ensures
        r@ == formatted(prefix@, e@),
{
    let mut out = String::from_str(prefix);
    out.append(e.message.as_str());
    if let (Some(line), Some(column)) = (e.line, e.column) {
        out.append(" (line ");
        out.append(num_to_string(line).as_str());
        out.append(", column ");
        out.append(num_to_string(column).as_str());
        out.append(")");
    }
    match &e.suggestion {
        Some(s) => {
            out.append("\n  Suggestion: ");
            out.append(s.as_str());
        }
        None => {},
    }
    proof {
        assert(out@ =~= formatted(prefix@, e@));
    }
    out
}

/// Renders every finding behind a prefix and joins the lines with newlines.
fn join_formatted(prefix: &str, errs: &Vec<ValidationError>) -> (r: String)
    ensures
        r@ == join_lines(formatted_all(prefix@, error_views(errs@))),
{
    let ghost fa = formatted_all(prefix@, error_views(errs@));
    let mut out = String::new();
    let n = errs.len();
    let mut i: usize = 0;
    proof {
        assert(out@ =~= join_lines(fa.take(0)));
    }
    while i < n
        invariant
            n == errs@.len(),
            fa == formatted_all(prefix@, error_views(errs@)),
            fa.len() == n,
            0 <= i <= n,
            out@ == join_lines(fa.take(i as int)),
        decreases n - i,
    {
        if i > 0 {
            out.append("\n");
        }
        let m = format_finding(prefix, &errs[i]);
        out.append(m.as_str());
        proof {
            reveal_strlit("\n");
            assert(fa.take(i as int + 1).drop_last() =~= fa.take(i as int));
            assert(fa.take(i as int + 1).last() == fa[i as int]);
            assert(m@ == fa[i as int]);
            if i == 0 {
                assert(out@ =~= join_lines(fa.take(1)));
            } else {
                assert(out@ =~= join_lines(fa.take(i as int + 1)));
            }
        }
        i = i + 1;
    }
    proof {
        assert(fa.take(n as int) =~= fa);
    }
    out
}

} // verus!
