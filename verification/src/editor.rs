//! The editor state: the committed key/value mapping, the two transient text
//! buffers, and the screen/editing-mode position.  The mapping is held as a
//! vector of pairs with pairwise-distinct keys and is viewed abstractly as a
//! `Map<Seq<char>, Seq<char>>`; committing a pair inserts into that map with
//! last-write-wins semantics.

use vstd::prelude::*;

verus! {

/// The top-level UI mode, gating which key bindings apply.
#[derive(Clone, Copy, Debug, PartialEq, Eq, Structural)]
pub enum Screen {
    Main,
    Editing,
    Exiting,
}

/// Which transient buffer receives typed input while on the editing screen.
#[derive(Clone, Copy, Debug, PartialEq, Eq, Structural)]
pub enum EditingField {
    Key,
    Value,
}

/// The abstract value of an [`EditorState`]: the committed mapping as a
/// mathematical map over character sequences, the two buffers as character
/// sequences, and the screen/editing position.
#[verifier::ext_equal]
pub ghost struct EditorView {
    pub pairs: Map<Seq<char>, Seq<char>>,
    pub key_input: Seq<char>,
    pub value_input: Seq<char>,
    pub screen: Screen,
    pub editing: Option<EditingField>,
}

impl EditorView {
    /// The all-empty starting point: nothing committed, nothing typed,
    /// main screen, no field being edited.
    pub open spec fn init() -> EditorView {
        EditorView {
            pairs: Map::empty(),
            key_input: Seq::empty(),
            value_input: Seq::empty(),
            screen: Screen::Main,
            editing: None,
        }
    }

    /// The documented state invariant: a field is being edited only while
    /// the editing screen is up.
    pub open spec fn inv(self) -> bool {
        self.editing is Some ==> self.screen is Editing
    }
}

/// A buffer after one backspace: unchanged when empty, else one character
/// shorter.
pub open spec fn popped(s: Seq<char>) -> Seq<char> {
    if s.len() == 0 {
        s
    } else {
        s.drop_last()
    }
}

/// The editing field after one Tab press: Key and Value swap; an absent
/// field falls back to Key rather than fail.
pub open spec fn toggled(f: Option<EditingField>) -> Option<EditingField> {
    match f {
        Some(EditingField::Key) => Some(EditingField::Value),
        Some(EditingField::Value) => Some(EditingField::Key),
        None => Some(EditingField::Key),
    }
}

/// No two stored pairs share a key.
pub open spec fn keys_distinct(ps: Seq<(String, String)>) -> bool {
    forall|i: int, j: int| 0 <= i < j < ps.len() ==> ps[i].0@ != ps[j].0@
}

/// The mapping a sequence of pairs denotes: later pairs win, though under
/// [`keys_distinct`] each key occurs at most once.
pub open spec fn map_of(ps: Seq<(String, String)>) -> Map<Seq<char>, Seq<char>>
    decreases ps.len(),
{
    if ps.len() == 0 {
        Map::empty()
    } else {
        map_of(ps.drop_last()).insert(ps.last().0@, ps.last().1@)
    }
}

/// `map_of` contains exactly the keys that occur in the sequence, and under
/// distinct keys each stored pair gives its key's value.
pub proof fn lemma_map_of_props(ps: Seq<(String, String)>)
    ensures
        forall|k: Seq<char>| #[trigger] map_of(ps).contains_key(k)
            <==> exists|i: int| 0 <= i < ps.len() && #[trigger] ps[i].0@ == k,
        keys_distinct(ps) ==> forall|i: int| 0 <= i < ps.len()
            ==> map_of(ps).contains_key(#[trigger] ps[i].0@) && map_of(ps)[ps[i].0@] == ps[i].1@,
    decreases ps.len(),
{
    if ps.len() > 0 {
        let dl = ps.drop_last();
        lemma_map_of_props(dl);
        assert(map_of(ps) == map_of(dl).insert(ps.last().0@, ps.last().1@));
        assert(forall|i: int| 0 <= i < dl.len() ==> #[trigger] dl[i] == ps[i]);
        assert forall|k: Seq<char>| #[trigger] map_of(ps).contains_key(k)
            implies exists|i: int| 0 <= i < ps.len() && #[trigger] ps[i].0@ == k by {
            if k == ps.last().0@ {
                assert(ps[ps.len() - 1].0@ == k);
            } else {
                assert(map_of(dl).contains_key(k));
                let i = choose|i: int| 0 <= i < dl.len() && #[trigger] dl[i].0@ == k;
                assert(ps[i].0@ == k);
            }
        }
        assert forall|k: Seq<char>|
            (exists|i: int| 0 <= i < ps.len() && #[trigger] ps[i].0@ == k)
            implies #[trigger] map_of(ps).contains_key(k) by {
            let i = choose|i: int| 0 <= i < ps.len() && #[trigger] ps[i].0@ == k;
            if i == ps.len() - 1 {
                assert(ps.last().0@ == k);
            } else {
                assert(dl[i].0@ == k);
                assert(map_of(dl).contains_key(k));
            }
        }
        if keys_distinct(ps) {
            assert(keys_distinct(dl)) by {
                assert forall|i: int, j: int| 0 <= i < j < dl.len()
                    implies dl[i].0@ != dl[j].0@ by {
                    assert(ps[i].0@ != ps[j].0@);
                }
            }
            assert forall|i: int| 0 <= i < ps.len()
                implies map_of(ps).contains_key(#[trigger] ps[i].0@)
                    && map_of(ps)[ps[i].0@] == ps[i].1@ by {
                if i == ps.len() - 1 {
                } else {
                    assert(dl[i].0@ == ps[i].0@ && dl[i].1@ == ps[i].1@);
                    assert(ps[i].0@ != ps.last().0@);
                }
            }
        }
    }
}

/// Appending a pair inserts it into the denoted map.
proof fn lemma_map_of_push(ps: Seq<(String, String)>, k: String, v: String)
    ensures
        map_of(ps.push((k, v))) == map_of(ps).insert(k@, v@),
{
    assert(ps.push((k, v)).drop_last() =~= ps);
    assert(ps.push((k, v)).last() == (k, v));
}

/// Removing the one pair that holds a key, then inserting a value for that
/// key, denotes the same map as inserting over the whole sequence.
proof fn lemma_map_of_remove(ps: Seq<(String, String)>, i: int)
    requires
        keys_distinct(ps),
        0 <= i < ps.len(),
    ensures
        keys_distinct(ps.remove(i)),
        forall|j: int| 0 <= j < ps.remove(i).len() ==> #[trigger] ps.remove(i)[j].0@ != ps[i].0@,
        forall|v: Seq<char>| map_of(ps.remove(i)).insert(ps[i].0@, v)
            == #[trigger] map_of(ps).insert(ps[i].0@, v),
{
    let ps1 = ps.remove(i);
    ps.remove_ensures(i);
    assert forall|j: int| 0 <= j < ps1.len() implies #[trigger] ps1[j].0@ != ps[i].0@ by {
        if j < i {
            assert(ps1[j] == ps[j]);
        } else {
            assert(ps1[j] == ps[j + 1]);
        }
    }
    assert(keys_distinct(ps1)) by {
        assert forall|a: int, b: int| 0 <= a < b < ps1.len()
            implies ps1[a].0@ != ps1[b].0@ by {
            let a0 = if a < i { a } else { a + 1 };
            let b0 = if b < i { b } else { b + 1 };
            assert(ps1[a] == ps[a0] && ps1[b] == ps[b0]);
        }
    }
    lemma_map_of_props(ps);
    lemma_map_of_props(ps1);
    assert forall|v: Seq<char>| map_of(ps1).insert(ps[i].0@, v)
        == #[trigger] map_of(ps).insert(ps[i].0@, v) by {
        let m1 = map_of(ps1).insert(ps[i].0@, v);
        let m0 = map_of(ps).insert(ps[i].0@, v);
        assert forall|k: Seq<char>| m1.contains_key(k) <==> m0.contains_key(k) by {
            if k != ps[i].0@ {
                if map_of(ps1).contains_key(k) {
                    let j = choose|j: int| 0 <= j < ps1.len() && #[trigger] ps1[j].0@ == k;
                    let j0 = if j < i { j } else { j + 1 };
                    assert(ps[j0].0@ == k);
                }
                if map_of(ps).contains_key(k) {
                    let j = choose|j: int| 0 <= j < ps.len() && #[trigger] ps[j].0@ == k;
                    let j1 = if j < i { j } else { j - 1 };
                    assert(ps1[j1].0@ == k);
                }
            }
        }
        assert forall|k: Seq<char>| m1.contains_key(k) implies m1[k] == m0[k] by {
            if k != ps[i].0@ {
                let j = choose|j: int| 0 <= j < ps1.len() && #[trigger] ps1[j].0@ == k;
                let j0 = if j < i { j } else { j + 1 };
                assert(ps[j0].0@ == k && ps[j0].1@ == ps1[j].1@);
                assert(map_of(ps1)[k] == ps1[j].1@);
                assert(map_of(ps)[k] == ps[j0].1@);
            }
        }
        assert(m1 =~= m0);
    }
}

/// The single source of truth for what is being edited and what has been
/// committed.  The pair vector is private so that its keys stay distinct.
pub struct EditorState {
    /// The key currently being typed.
    pub key_input: String,
    /// The value currently being typed.
    pub value_input: String,
    /// The committed pairs; keys are pairwise distinct.
    pairs: Vec<(String, String)>,
    /// The screen currently shown.
    pub current_screen: Screen,
    /// The buffer typed characters go to, if any.
    pub currently_editing: Option<EditingField>,
}

impl View for EditorState {
    type V = EditorView;

    closed spec fn view(&self) -> EditorView {
        EditorView {
            pairs: map_of(self.pairs@),
            key_input: self.key_input@,
            value_input: self.value_input@,
            screen: self.current_screen,
            editing: self.currently_editing,
        }
    }
}

impl EditorState {
    /// The stored pairs never repeat a key.
    pub closed spec fn wf(&self) -> bool {
        keys_distinct(self.pairs@)
    }

    /// Create the all-empty starting state.
    pub fn new() -> (r: EditorState)
        ensures
            r.wf(),
            r@ == EditorView::init(),
            r@.inv(),
    {
        let r = EditorState {
            key_input: String::new(),
            value_input: String::new(),
            pairs: Vec::new(),
            current_screen: Screen::Main,
            currently_editing: None,
        };
        proof {
            assert(r@.pairs =~= Map::<Seq<char>, Seq<char>>::empty());
            assert(r@ =~= EditorView::init());
        }
        r
    }

    /// How many pairs have been committed.
    pub fn len(&self) -> (n: usize)
        requires
            self.wf(),
        ensures
            n == self@.pairs.dom().len(),
    {
        proof {
            lemma_map_of_props(self.pairs@);
            lemma_map_of_card(self.pairs@);
        }
        self.pairs.len()
    }

    /// Look a committed key up, by the key's characters.
    pub fn get(&self, key: &String) -> (r: Option<&String>)
        requires
            self.wf(),
        ensures
            match r {
                Some(v) => self@.pairs.contains_key(key@) && v@ == self@.pairs[key@],
                None => !self@.pairs.contains_key(key@),
            },
    {
        proof {
            lemma_map_of_props(self.pairs@);
        }
        match find_key(&self.pairs, key) {
            Some(i) => Some(&self.pairs[i].1),
            None => None,
        }
    }

    /// The committed pairs in insertion order, keys pairwise distinct;
    /// together they denote exactly the mapping of the view.
    pub fn entries(&self) -> (r: &Vec<(String, String)>)
        requires
            self.wf(),
        ensures
            map_of(r@) == self@.pairs,
            keys_distinct(r@),
    {
        &self.pairs
    }

    /// Commit the pair being typed: insert `(key_input, value_input)` into
    /// the mapping (overwriting an existing identical key), clear both
    /// buffers, and leave editing mode.  The screen is not touched here.
    pub fn save_key_value(&mut self)
        requires
            old(self).wf(),
        ensures
            final(self).wf(),
            final(self)@ == (EditorView {
                pairs: old(self)@.pairs.insert(old(self)@.key_input, old(self)@.value_input),
                key_input: Seq::empty(),
                value_input: Seq::empty(),
                screen: old(self)@.screen,
                editing: None,
            }),
    {
        let ghost ps0 = self.pairs@;
        let ghost ks = self.key_input@;
        let ghost vs = self.value_input@;
        let found = find_key(&self.pairs, &self.key_input);
        match found {
            Some(i) => {
                proof {
                    lemma_map_of_remove(ps0, i as int);
                }
                self.pairs.remove(i);
            }
            None => {}
        }
        let ghost ps1 = self.pairs@;
        proof {
            assert(keys_distinct(ps1));
            assert(forall|j: int| 0 <= j < ps1.len() ==> #[trigger] ps1[j].0@ != ks);
            assert(map_of(ps1).insert(ks, vs) == map_of(ps0).insert(ks, vs));
        }
        let k = self.key_input.clone();
        let v = self.value_input.clone();
        proof {
            lemma_map_of_push(ps1, k, v);
        }
        self.pairs.push((k, v));
        proof {
            assert(map_of(self.pairs@) == map_of(ps0).insert(ks, vs));
            assert(keys_distinct(self.pairs@)) by {
                assert forall|a: int, b: int| 0 <= a < b < self.pairs@.len()
                    implies self.pairs@[a].0@ != self.pairs@[b].0@ by {
                    if b < ps1.len() {
                        assert(ps1[a].0@ != ps1[b].0@);
                    } else {
                        assert(self.pairs@[a] == ps1[a]);
                    }
                }
            }
        }
        self.key_input = String::new();
        self.value_input = String::new();
        self.currently_editing = None;
        proof {
            assert(self@ =~= (EditorView {
                pairs: map_of(ps0).insert(ks, vs),
                key_input: Seq::empty(),
                value_input: Seq::empty(),
                screen: old(self)@.screen,
                editing: None,
            }));
        }
    }

    /// The screen currently shown.
    pub fn screen(&self) -> (s: Screen)
        ensures
            s == self@.screen,
    {
        self.current_screen
    }

    /// The buffer typed characters currently go to, if any.
    pub fn editing(&self) -> (f: Option<EditingField>)
        ensures
            f == self@.editing,
    {
        self.currently_editing
    }

    /// Switch to the editing screen, starting the user on the key side.
    pub fn enter_editing(&mut self)
        ensures
            final(self)@ == (EditorView {
                screen: Screen::Editing,
                editing: Some(EditingField::Key),
                ..old(self)@
            }),
            final(self).wf() == old(self).wf(),
    {
        self.current_screen = Screen::Editing;
        self.currently_editing = Some(EditingField::Key);
    }

    /// Switch to the exit-confirmation screen.
    pub fn start_exit(&mut self)
        ensures
            final(self)@ == (EditorView { screen: Screen::Exiting, ..old(self)@ }),
            final(self).wf() == old(self).wf(),
    {
        self.current_screen = Screen::Exiting;
    }

    /// Leave editing mode and return to the main screen.  The buffers are
    /// left as they are: abandoning a pair does not clear them.
    pub fn exit_editing(&mut self)
        ensures
            final(self)@ == (EditorView { screen: Screen::Main, editing: None, ..old(self)@ }),
            final(self).wf() == old(self).wf(),
    {
        self.current_screen = Screen::Main;
        self.currently_editing = None;
    }

    /// Advance from typing the key to typing the value.
    pub fn select_value(&mut self)
        ensures
            final(self)@ == (EditorView { editing: Some(EditingField::Value), ..old(self)@ }),
            final(self).wf() == old(self).wf(),
    {
        self.currently_editing = Some(EditingField::Value);
    }

    /// Delete the last character of whichever buffer is being edited; a
    /// no-op on an empty buffer or when no field is being edited.
    pub fn backspace(&mut self)
        ensures
            final(self)@ == (match old(self)@.editing {
                Some(EditingField::Key) => EditorView {
                    key_input: popped(old(self)@.key_input),
                    ..old(self)@
                },
                Some(EditingField::Value) => EditorView {
                    value_input: popped(old(self)@.value_input),
                    ..old(self)@
                },
                None => old(self)@,
            }),
            final(self).wf() == old(self).wf(),
    {
        match self.currently_editing {
            Some(EditingField::Key) => {
                pop_char(&mut self.key_input);
            }
            Some(EditingField::Value) => {
                pop_char(&mut self.value_input);
            }
            None => {}
        }
    }

    /// Append a typed character to whichever buffer is being edited; a
    /// no-op when no field is being edited.
    pub fn type_char(&mut self, c: char)
        ensures
            final(self)@ == (match old(self)@.editing {
                Some(EditingField::Key) => EditorView {
                    key_input: old(self)@.key_input.push(c),
                    ..old(self)@
                },
                Some(EditingField::Value) => EditorView {
                    value_input: old(self)@.value_input.push(c),
                    ..old(self)@
                },
                None => old(self)@,
            }),
            final(self).wf() == old(self).wf(),
    {
        match self.currently_editing {
            Some(EditingField::Key) => {
                push_char(&mut self.key_input, c);
            }
            Some(EditingField::Value) => {
                push_char(&mut self.value_input, c);
            }
            None => {}
        }
    }

    /// Swap which buffer is being edited; if none is, fall back to the key
    /// buffer rather than fail.
    pub fn toggle_editing(&mut self)
        ensures
            final(self)@ == (EditorView {
                editing: toggled(old(self)@.editing),
                ..old(self)@
            }),
            final(self).wf() == old(self).wf(),
    {
        match self.currently_editing {
            Some(EditingField::Key) => {
                self.currently_editing = Some(EditingField::Value);
            }
            Some(EditingField::Value) => {
                self.currently_editing = Some(EditingField::Key);
            }
            None => {
                self.currently_editing = Some(EditingField::Key);
            }
        }
    }
}

/// Under distinct keys, the denoted map has exactly one key per pair.
proof fn lemma_map_of_card(ps: Seq<(String, String)>)
    requires
        keys_distinct(ps),
    ensures
        map_of(ps).dom().len() == ps.len(),
        map_of(ps).dom().finite(),
    decreases ps.len(),
{
    if ps.len() == 0 {
    } else {
        let dl = ps.drop_last();
        assert(keys_distinct(dl)) by {
            assert forall|i: int, j: int| 0 <= i < j < dl.len()
                implies dl[i].0@ != dl[j].0@ by {
                assert(ps[i].0@ != ps[j].0@);
            }
        }
        lemma_map_of_card(dl);
        lemma_map_of_props(dl);
        assert(!map_of(dl).contains_key(ps.last().0@)) by {
            if map_of(dl).contains_key(ps.last().0@) {
                let i = choose|i: int| 0 <= i < dl.len() && #[trigger] dl[i].0@ == ps.last().0@;
                assert(ps[i].0@ == ps[ps.len() - 1].0@);
            }
        }
        assert(map_of(ps).dom() =~= map_of(dl).dom().insert(ps.last().0@));
        vstd::set::axiom_set_insert_len(map_of(dl).dom(), ps.last().0@);
    }
}

/// Relies on `String::push`: appends one character at the end of the string.
#[verifier::external_body]
fn push_char(s: &mut String, c: char)
    ensures
        final(s)@ == old(s)@.push(c),
{
    s.push(c);
}

/// Relies on `String::pop`: removes the last character; on an empty string
/// it returns `None` and leaves the string as it is.
#[verifier::external_body]
fn pop_char(s: &mut String)
    ensures
        final(s)@ == popped(old(s)@),
{
    s.pop();
}

/// Find the index holding a key, scanning left to right.
fn find_key(pairs: &Vec<(String, String)>, key: &String) -> (r: Option<usize>)
    ensures
        match r {
            Some(i) => i < pairs@.len() && pairs@[i as int].0@ == key@,
            None => forall|j: int| 0 <= j < pairs@.len() ==> pairs@[j].0@ != key@,
        },
{
    let n = pairs.len();
    let mut i: usize = 0;
    while i < n
        invariant
            i <= n,
            n == pairs@.len(),
            forall|j: int| 0 <= j < i ==> pairs@[j].0@ != key@,
        decreases n - i,
    {
        if pairs[i].0 == *key {
            return Some(i);
        }
        i = i + 1;
    }
    None
}

} // verus!
