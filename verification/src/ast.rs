//! The document model: a `Script` holds a title marker, a mapping from
//! character codes to display names, and an ordered list of scenes.
//!
//! The character mapping keeps its entries in insertion order with unique
//! keys; inserting an existing code overwrites the stored name in place, so
//! the last definition wins.

use vstd::prelude::*;
use vstd::pervasive::VecAdditionalExecFns;
use crate::text::str_eq;

verus! {

/// Mathematical model of one scene content element.
pub enum ElementView {
    Dialogue { speaker: Seq<char>, text: Seq<char>, actions: Seq<Seq<char>> },
    Narration(Seq<char>),
    Action(Seq<char>),
}

/// Mathematical model of a scene.
pub struct SceneView {
    pub location: Option<Seq<char>>,
    pub elements: Seq<ElementView>,
}

/// Mathematical model of a whole document. The character mapping is a
/// sequence of `(code, name)` pairs in insertion order.
pub struct ScriptView {
    pub title: Seq<char>,
    pub characters: Seq<(Seq<char>, Seq<char>)>,
    pub scenes: Seq<SceneView>,
}

/// Index of the first entry at or after `i` whose key is `k`, or `-1`.
pub open spec fn key_index_from(m: Seq<(Seq<char>, Seq<char>)>, k: Seq<char>, i: int) -> int
    decreases m.len() - i,
{
    if i < 0 || i >= m.len() {
        -1
    } else if m[i].0 == k {
        i
    } else {
        key_index_from(m, k, i + 1)
    }
}

/// Index of the entry with key `k`, or `-1` when there is none.
pub open spec fn key_index(m: Seq<(Seq<char>, Seq<char>)>, k: Seq<char>) -> int {
    key_index_from(m, k, 0)
}

/// Whether the mapping holds key `k`.
pub open spec fn map_contains(m: Seq<(Seq<char>, Seq<char>)>, k: Seq<char>) -> bool {
    key_index(m, k) >= 0
}

/// The name stored under key `k` (arbitrary when the key is absent).
pub open spec fn map_value(m: Seq<(Seq<char>, Seq<char>)>, k: Seq<char>) -> Seq<char> {
    m[key_index(m, k)].1
}

/// Insertion with last-write-wins semantics: an existing key keeps its
/// position and gets the new value, a new key is appended at the end.
pub open spec fn map_insert(
    m: Seq<(Seq<char>, Seq<char>)>,
    k: Seq<char>,
    v: Seq<char>,
) -> Seq<(Seq<char>, Seq<char>)> {
    let i = key_index(m, k);
    if i >= 0 {
        m.update(i, (k, v))
    } else {
        m.push((k, v))
    }
}

/// No two entries share a key.
pub open spec fn keys_unique(m: Seq<(Seq<char>, Seq<char>)>) -> bool {
    forall|i: int, j: int| 0 <= i < j < m.len() ==> m[i].0 != m[j].0
}

pub proof fn lemma_key_index_from(m: Seq<(Seq<char>, Seq<char>)>, k: Seq<char>, i: int)
    requires
        0 <= i <= m.len(),
    ensures
        key_index_from(m, k, i) == -1 || i <= key_index_from(m, k, i) < m.len(),
        key_index_from(m, k, i) >= 0 ==> m[key_index_from(m, k, i)].0 == k,
        key_index_from(m, k, i) >= 0 ==> forall|j: int|
            i <= j < key_index_from(m, k, i) ==> m[j].0 != k,
        key_index_from(m, k, i) == -1 ==> forall|j: int| i <= j < m.len() ==> m[j].0 != k,
    decreases m.len() - i,
{
    if i < m.len() && m[i].0 != k {
        lemma_key_index_from(m, k, i + 1);
    }
}

/// The first index with key `k` is `i` when the earlier entries miss `k`
/// and entry `i` carries it.
pub proof fn lemma_key_index_found(m: Seq<(Seq<char>, Seq<char>)>, k: Seq<char>, i: int)
    requires
        0 <= i < m.len(),
        m[i].0 == k,
        forall|j: int| 0 <= j < i ==> m[j].0 != k,
    ensures
        key_index(m, k) == i,
{
    lemma_key_index_from(m, k, 0);
    let r = key_index(m, k);
    if r == -1 {
        assert(m[i].0 != k);
    } else if r < i {
        assert(m[r].0 != k);
    } else if r > i {
        assert(m[i].0 != k);
    }
}

pub proof fn lemma_key_index_missing(m: Seq<(Seq<char>, Seq<char>)>, k: Seq<char>)
    requires
        forall|j: int| 0 <= j < m.len() ==> m[j].0 != k,
    ensures
        key_index(m, k) == -1,
{
    lemma_key_index_from(m, k, 0);
    if key_index(m, k) >= 0 {
        assert(m[key_index(m, k)].0 != k);
    }
}

/// Insertion preserves key uniqueness.
pub proof fn lemma_map_insert_keys_unique(
    m: Seq<(Seq<char>, Seq<char>)>,
    k: Seq<char>,
    v: Seq<char>,
)
    requires
        keys_unique(m),
    ensures
        keys_unique(map_insert(m, k, v)),
{
    lemma_key_index_from(m, k, 0);
    let i = key_index(m, k);
    if i >= 0 {
        let m2 = m.update(i, (k, v));
        assert forall|a: int, b: int| 0 <= a < b < m2.len() implies m2[a].0 != m2[b].0 by {
            if a == i {
                if m[b].0 == k {
                    assert(m[i].0 == k);
                }
            } else if b == i {
                if m[a].0 == k {
                    lemma_key_index_found(m, k, a);
                }
            }
        }
    } else {
        let m2 = m.push((k, v));
        assert forall|a: int, b: int| 0 <= a < b < m2.len() implies m2[a].0 != m2[b].0 by {
            if b == m.len() {
                assert(m[a].0 != k);
            }
        }
    }
}

/// Defining the same code twice leaves one entry holding the last-defined
/// name: a second insertion under the same key overwrites the first, and the
/// size of the mapping counts unique codes only.
pub proof fn lemma_redefine_code(
    m: Seq<(Seq<char>, Seq<char>)>,
    k: Seq<char>,
    v1: Seq<char>,
    v2: Seq<char>,
)
    ensures
        map_insert(map_insert(m, k, v1), k, v2) == map_insert(m, k, v2),
        map_contains(map_insert(m, k, v1), k),
        map_value(map_insert(m, k, v1), k) == v1,
        map_contains(m, k) ==> map_insert(m, k, v1).len() == m.len(),
        !map_contains(m, k) ==> map_insert(m, k, v1).len() == m.len() + 1,
{
    lemma_key_index_from(m, k, 0);
    let i = key_index(m, k);
    if i >= 0 {
        let m1 = m.update(i, (k, v1));
        lemma_key_index_found(m1, k, i);
        assert(map_insert(m1, k, v2) =~= m.update(i, (k, v2)));
    } else {
        let m1 = m.push((k, v1));
        lemma_key_index_found(m1, k, m.len() as int);
        assert(map_insert(m1, k, v2) =~= m.push((k, v2)));
    }
}

/// The character mapping: `(code, name)` pairs in insertion order with
/// unique codes, standing in for a hash map so that iteration order and
/// content are both pinned down.
#[derive(Debug, Clone, PartialEq)]
pub struct CharacterMap {
    entries: Vec<(String, String)>,
}

impl View for CharacterMap {
    type V = Seq<(Seq<char>, Seq<char>)>;

    closed spec fn view(&self) -> Seq<(Seq<char>, Seq<char>)> {
        Seq::new(self.entries@.len(), |i: int| (self.entries@[i].0@, self.entries@[i].1@))
    }
}

impl CharacterMap {
    pub fn new() -> (r: CharacterMap)
        ensures
            r@ == Seq::<(Seq<char>, Seq<char>)>::empty(),
    {
        let r = CharacterMap { entries: Vec::new() };
        proof {
            assert(r@ =~= Seq::<(Seq<char>, Seq<char>)>::empty());
        }
        r
    }

    pub fn len(&self) -> (r: usize)
        ensures
            r == self@.len(),
    {
        self.entries.len()
    }

    pub fn is_empty(&self) -> (r: bool)
        ensures
            r == (self@.len() == 0),
    {
        self.entries.is_empty()
    }

    /// The `(code, name)` pair at position `i` in insertion order.
    pub fn pair_at(&self, i: usize) -> (r: &(String, String))
        requires
            i < self@.len(),
        ensures
            (r.0@, r.1@) == self@[i as int],
    {
        &self.entries[i]
    }

    pub fn contains_key(&self, code: &str) -> (r: bool)
        ensures
            r == map_contains(self@, code@),
    {
        let n = self.entries.len();
        let mut i: usize = 0;
        while i < n
            invariant
                n == self@.len(),
                0 <= i <= n,
                forall|j: int| 0 <= j < i ==> self@[j].0 != code@,
            decreases n - i,
        {
            if str_eq(self.entries[i].0.as_str(), code) {
                proof {
                    lemma_key_index_found(self@, code@, i as int);
                }
                return true;
            }
            i = i + 1;
        }
        proof {
            lemma_key_index_missing(self@, code@);
        }
        false
    }

    /// The name stored under `code`, if the code is defined.
    pub fn get(&self, code: &str) -> (r: Option<&String>)
        ensures
            match r {
                Some(name) => map_contains(self@, code@) && name@ == map_value(self@, code@),
                None => !map_contains(self@, code@),
            },
    {
        let n = self.entries.len();
        let mut i: usize = 0;
        while i < n
            invariant
                n == self@.len(),
                0 <= i <= n,
                forall|j: int| 0 <= j < i ==> self@[j].0 != code@,
            decreases n - i,
        {
            if str_eq(self.entries[i].0.as_str(), code) {
                proof {
                    lemma_key_index_found(self@, code@, i as int);
                }
                return Some(&self.entries[i].1);
            }
            i = i + 1;
        }
        proof {
            lemma_key_index_missing(self@, code@);
        }
        None
    }

    /// Defines `code` as `name`; a second definition of the same code
    /// overwrites the first, keeping its position.
    pub fn insert(&mut self, code: String, name: String)
        ensures
            final(self)@ == map_insert(old(self)@, code@, name@),
    {
        let n = self.entries.len();
        let mut i: usize = 0;
        while i < n
            invariant
                n == self@.len(),
                0 <= i <= n,
                *self == *old(self),
                forall|j: int| 0 <= j < i ==> self@[j].0 != code@,
            decreases n - i,
        {
            if str_eq(self.entries[i].0.as_str(), code.as_str()) {
                proof {
                    lemma_key_index_found(self@, code@, i as int);
                }
                self.entries.set(i, (code, name));
                proof {
                    assert(final(self)@ =~= map_insert(old(self)@, code@, name@));
                }
                return;
            }
            i = i + 1;
        }
        proof {
            lemma_key_index_missing(self@, code@);
        }
        self.entries.push((code, name));
        proof {
            assert(final(self)@ =~= map_insert(old(self)@, code@, name@));
        }
    }
}

/// The views of a string vector, in order.
pub open spec fn string_views(v: Seq<String>) -> Seq<Seq<char>> {
    v.map_values(|s: String| s@)
}

/// The views of an element vector, in order.
pub open spec fn element_views(v: Seq<ScriptElement>) -> Seq<ElementView> {
    v.map_values(|e: ScriptElement| e@)
}

/// The views of a scene vector, in order.
pub open spec fn scene_views(v: Seq<Scene>) -> Seq<SceneView> {
    v.map_values(|s: Scene| s@)
}

/// One unit of scene content: a spoken line, plain narration, or an action
/// description. The `actions` list of a dialogue is part of the model but no
/// parsing rule fills it.
#[derive(Debug, Clone, PartialEq)]
pub enum ScriptElement {
    Dialogue { speaker: String, text: String, actions: Vec<String> },
    Narration(String),
    Action(String),
}

impl View for ScriptElement {
    type V = ElementView;

    open spec fn view(&self) -> ElementView {
        match self {
            ScriptElement::Dialogue { speaker, text, actions } => ElementView::Dialogue {
                speaker: speaker@,
                text: text@,
                actions: string_views(actions@),
            },
            ScriptElement::Narration(t) => ElementView::Narration(t@),
            ScriptElement::Action(t) => ElementView::Action(t@),
        }
    }
}

/// A contiguous run of script content under one location header.
#[derive(Debug, Clone, PartialEq)]
pub struct Scene {
    pub location: Option<String>,
    pub elements: Vec<ScriptElement>,
}

impl View for Scene {
    type V = SceneView;

    open spec fn view(&self) -> SceneView {
        SceneView {
            location: match self.location {
                Some(ref l) => Some(l@),
                None => None,
            },
            elements: element_views(self.elements@),
        }
    }
}

impl Scene {
    pub fn new(location: Option<String>) -> (r: Scene)
        ensures
            r@.location == match location {
                Some(l) => Some(l@),
                None => None::<Seq<char>>,
            },
            r@.elements == Seq::<ElementView>::empty(),
    {
        let r = Scene { location, elements: Vec::new() };
        proof {
            assert(r@.elements =~= Seq::<ElementView>::empty());
        }
        r
    }
}

/// The finished document.
#[derive(Debug, Clone, PartialEq)]
pub struct Script {
    pub title_section: String,
    pub characters: CharacterMap,
    pub scenes: Vec<Scene>,
}

impl View for Script {
    type V = ScriptView;

    open spec fn view(&self) -> ScriptView {
        ScriptView {
            title: self.title_section@,
            characters: self.characters@,
            scenes: scene_views(self.scenes@),
        }
    }
}

/// The model of a freshly created document: everything empty.
pub open spec fn empty_script_view() -> ScriptView {
    ScriptView {
        title: Seq::empty(),
        characters: Seq::empty(),
        scenes: Seq::empty(),
    }
}

impl Script {
    pub fn new() -> (r: Script)
        ensures
            r@ == empty_script_view(),
    {
        let r = Script {
            title_section: String::new(),
            characters: CharacterMap::new(),
            scenes: Vec::new(),
        };
        proof {
            assert(r@.title =~= empty_script_view().title);
            assert(r@.characters =~= empty_script_view().characters);
            assert(r@.scenes =~= empty_script_view().scenes);
        }
        r
    }
}

} // verus!
