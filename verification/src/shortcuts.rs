use vstd::prelude::*;
use crate::text::{chars_eq_str, chars_of, push_chars, push_str, spec_lowercase, trim};

verus! {

/// The three actions that a global shortcut can trigger.
#[derive(Clone, Copy, Debug, PartialEq, Eq, Structural)]
pub enum ShortcutAction {
    Screenshot,
    RecordToggle,
    Descriptor,
}

impl ShortcutAction {
    /// Every action, in the order shortcuts are registered.
    pub fn all() -> (r: [ShortcutAction; 3])
        ensures
            r@ == seq![ShortcutAction::Screenshot, ShortcutAction::RecordToggle, ShortcutAction::Descriptor],
    {
        let r = [ShortcutAction::Screenshot, ShortcutAction::RecordToggle, ShortcutAction::Descriptor];
        assert(r@ =~= seq![ShortcutAction::Screenshot, ShortcutAction::RecordToggle, ShortcutAction::Descriptor]);
        r
    }

    pub open spec fn spec_default_combo(self) -> Seq<char> {
        match self {
            ShortcutAction::Screenshot => "ctrl+alt+space"@,
            ShortcutAction::RecordToggle => "ctrl+alt+r"@,
            ShortcutAction::Descriptor => "ctrl+alt+d"@,
        }
    }

    /// The combination an action is bound to until the user changes it.
    pub fn default_combo(&self) -> (r: &'static str)
        ensures
            r@ == self.spec_default_combo(),
    {
        match self {
            ShortcutAction::Screenshot => "ctrl+alt+space",
            ShortcutAction::RecordToggle => "ctrl+alt+r",
            ShortcutAction::Descriptor => "ctrl+alt+d",
        }
    }

    pub open spec fn spec_key(self) -> Seq<char> {
        match self {
            ShortcutAction::Screenshot => "screenshot"@,
            ShortcutAction::RecordToggle => "recordToggle"@,
            ShortcutAction::Descriptor => "descriptor"@,
        }
    }

    /// The name by which the frontend and the settings file refer to the
    /// action.
    pub fn key(&self) -> (r: &'static str)
        ensures
            r@ == self.spec_key(),
    {
        match self {
            ShortcutAction::Screenshot => "screenshot",
            ShortcutAction::RecordToggle => "recordToggle",
            ShortcutAction::Descriptor => "descriptor",
        }
    }

    pub open spec fn spec_from_key(key: Seq<char>) -> Result<ShortcutAction, Seq<char>> {
        if key == "screenshot"@ {
            Ok(ShortcutAction::Screenshot)
        } else if key == "recordToggle"@ {
            Ok(ShortcutAction::RecordToggle)
        } else if key == "descriptor"@ {
            Ok(ShortcutAction::Descriptor)
        } else {
            Err("Unknown shortcut action: "@ + key)
        }
    }

    /// The action a frontend name refers to.
    pub fn from_key(key: &str) -> (r: Result<ShortcutAction, String>)
        ensures
            match (r, Self::spec_from_key(key@)) {
                (Ok(a), Ok(b)) => a == b,
                (Err(m), Err(n)) => m@ == n,
                _ => false,
            },
    {
        if crate::text::str_eq(key, "screenshot") {
            Ok(ShortcutAction::Screenshot)
        } else if crate::text::str_eq(key, "recordToggle") {
            Ok(ShortcutAction::RecordToggle)
        } else if crate::text::str_eq(key, "descriptor") {
            Ok(ShortcutAction::Descriptor)
        } else {
            let mut m = String::new();
            push_str(&mut m, "Unknown shortcut action: ");
            m.append(key);
            Err(m)
        }
    }
}

pub open spec fn spec_action_event_name(action: ShortcutAction) -> Seq<char> {
    match action {
        ShortcutAction::Screenshot => "global-shortcut-screenshot"@,
        ShortcutAction::RecordToggle => "global-shortcut-record-toggle"@,
        ShortcutAction::Descriptor => "global-shortcut-descriptor"@,
    }
}

/// The event the frontend listens to for an action's shortcut.
pub fn action_event_name(action: ShortcutAction) -> (r: &'static str)
    ensures
        r@ == spec_action_event_name(action),
{
    match action {
        ShortcutAction::Screenshot => "global-shortcut-screenshot",
        ShortcutAction::RecordToggle => "global-shortcut-record-toggle",
        ShortcutAction::Descriptor => "global-shortcut-descriptor",
    }
}

/// The key of a parsed shortcut: the space bar, or a letter given by its
/// position in the alphabet (0 for A through 25 for Z).
#[derive(Clone, Copy, Debug, PartialEq, Eq, Structural)]
pub enum ComboKey {
    Space,
    Letter(u8),
}

/// A shortcut combination: its modifiers and its key.
#[derive(Clone, Copy, Debug, PartialEq, Eq, Structural)]
pub struct ParsedCombo {
    pub ctrl: bool,
    pub alt: bool,
    pub shift: bool,
    pub super_key: bool,
    pub key: ComboKey,
}

/// What has been read of a combination so far.
#[derive(Clone, Copy, Debug, PartialEq, Eq, Structural)]
pub struct ComboParts {
    pub ctrl: bool,
    pub alt: bool,
    pub shift: bool,
    pub super_key: bool,
    pub key: Option<ComboKey>,
}

/// The pieces of `s` between `+` signs, as `str::split('+')` gives them
/// (an empty string gives one empty piece).
pub open spec fn split_plus(s: Seq<char>) -> Seq<Seq<char>>
    decreases s.len(),
{
    if s.len() == 0 {
        seq![Seq::empty()]
    } else {
        let rest = split_plus(s.drop_last());
        if s.last() == '+' {
            rest.push(Seq::empty())
        } else {
            rest.update(rest.len() - 1, rest.last().push(s.last()))
        }
    }
}

pub proof fn lemma_split_plus_nonempty(s: Seq<char>)
    ensures
        split_plus(s).len() > 0,
    decreases s.len(),
{
    if s.len() > 0 {
        lemma_split_plus_nonempty(s.drop_last());
    }
}

/// One lowercased, trimmed piece of a combination applied to what has been
/// read so far.
pub open spec fn combo_word_step(st: ComboParts, word: Seq<char>) -> Result<ComboParts, Seq<char>> {
    if word == "ctrl"@ || word == "control"@ {
        Ok(ComboParts { ctrl: true, alt: st.alt, shift: st.shift, super_key: st.super_key, key: st.key })
    } else if word == "alt"@ {
        Ok(ComboParts { ctrl: st.ctrl, alt: true, shift: st.shift, super_key: st.super_key, key: st.key })
    } else if word == "shift"@ {
        Ok(ComboParts { ctrl: st.ctrl, alt: st.alt, shift: true, super_key: st.super_key, key: st.key })
    } else if word == "super"@ || word == "win"@ || word == "windows"@ {
        Ok(ComboParts { ctrl: st.ctrl, alt: st.alt, shift: st.shift, super_key: true, key: st.key })
    } else if word == "space"@ {
        Ok(ComboParts { ctrl: st.ctrl, alt: st.alt, shift: st.shift, super_key: st.super_key, key: Some(ComboKey::Space) })
    } else if word.len() == 1 && (word[0] as u32) < 128 {
        // A one-byte word: its ASCII upper case names the key.
        let u = word[0] as u32;
        if 97 <= u <= 122 {
            Ok(ComboParts { ctrl: st.ctrl, alt: st.alt, shift: st.shift, super_key: st.super_key, key: Some(ComboKey::Letter((u - 97) as u8)) })
        } else if 65 <= u <= 90 {
            Ok(ComboParts { ctrl: st.ctrl, alt: st.alt, shift: st.shift, super_key: st.super_key, key: Some(ComboKey::Letter((u - 65) as u8)) })
        } else {
            Err("Unsupported shortcut key: "@ + word)
        }
    } else {
        Err("Unsupported shortcut token: "@ + word)
    }
}

pub open spec fn no_parts() -> ComboParts {
    ComboParts { ctrl: false, alt: false, shift: false, super_key: false, key: None }
}

/// The pieces read in order; the first bad one decides the error.
pub open spec fn parse_pieces(pieces: Seq<Seq<char>>) -> Result<ComboParts, Seq<char>>
    decreases pieces.len(),
{
    if pieces.len() == 0 {
        Ok(no_parts())
    } else {
        match parse_pieces(pieces.drop_last()) {
            Err(e) => Err(e),
            Ok(st) => combo_word_step(st, spec_lowercase(trim(pieces.last()))),
        }
    }
}

/// What `parse_combo` gives for a combination such as `ctrl+alt+r`.
pub open spec fn spec_parse_combo(combo: Seq<char>) -> Result<ParsedCombo, Seq<char>> {
    match parse_pieces(split_plus(combo)) {
        Err(e) => Err(e),
        Ok(st) => match st.key {
            None => Err("Shortcut combo has no key."@),
            Some(k) => Ok(ParsedCombo { ctrl: st.ctrl, alt: st.alt, shift: st.shift, super_key: st.super_key, key: k }),
        },
    }
}

pub open spec fn piece_views(pieces: Seq<Vec<char>>) -> Seq<Seq<char>> {
    pieces.map_values(|p: Vec<char>| p@)
}

/// The pieces of `chars` between `+` signs.
fn split_on_plus(chars: &Vec<char>) -> (r: Vec<Vec<char>>)
    ensures
        piece_views(r@) == split_plus(chars@),
{
    let mut done: Vec<Vec<char>> = Vec::new();
    let mut cur: Vec<char> = Vec::new();
    let mut i: usize = 0;
    assert(chars@.take(0) =~= Seq::<char>::empty());
    assert(piece_views(done@).push(cur@) =~= seq![Seq::<char>::empty()]);
    while i < chars.len()
        invariant
            0 <= i <= chars.len(),
            split_plus(chars@.take(i as int)) == piece_views(done@).push(cur@),
        decreases chars.len() - i,
    {
        let c = chars[i];
        let ghost pre = chars@.take(i + 1);
        assert(pre.drop_last() =~= chars@.take(i as int));
        assert(pre.last() == c);
        let ghost before_done = piece_views(done@);
        let ghost before_cur = cur@;
        if c == '+' {
            let finished = cur;
            done.push(finished);
            cur = Vec::new();
            assert(piece_views(done@) =~= before_done.push(before_cur));
            assert(piece_views(done@).push(cur@) =~= before_done.push(before_cur).push(Seq::empty()));
        } else {
            cur.push(c);
            assert(piece_views(done@).push(cur@) =~= before_done.push(before_cur).update(
                before_done.len() as int,
                before_cur.push(c),
            ));
        }
        i = i + 1;
    }
    assert(chars@.take(chars.len() as int) =~= chars@);
    let ghost before_done = piece_views(done@);
    done.push(cur);
    assert(piece_views(done@) =~= before_done.push(cur@));
    done
}

/// The trimmed, lowercased form of one piece.
fn piece_word(piece: &Vec<char>) -> (r: Vec<char>)
    ensures
        r@ == spec_lowercase(trim(piece@)),
{
    let (a, b) = crate::text::trim_bounds(piece, 0, piece.len());
    assert(piece@.subrange(0, piece@.len() as int) =~= piece@);
    let t = crate::text::string_of_range(piece, a, b);
    let lower = crate::text::lowercase(t.as_str());
    chars_of(lower.as_str())
}

/// Applies one lowercased, trimmed piece to what has been read so far.
fn combo_step(st: ComboParts, word: &Vec<char>) -> (r: Result<ComboParts, String>)
    ensures
        match (r, combo_word_step(st, word@)) {
            (Ok(a), Ok(b)) => a == b,
            (Err(m), Err(n)) => m@ == n,
            _ => false,
        },
{
    if chars_eq_str(word, "ctrl") || chars_eq_str(word, "control") {
        Ok(ComboParts { ctrl: true, alt: st.alt, shift: st.shift, super_key: st.super_key, key: st.key })
    } else if chars_eq_str(word, "alt") {
        Ok(ComboParts { ctrl: st.ctrl, alt: true, shift: st.shift, super_key: st.super_key, key: st.key })
    } else if chars_eq_str(word, "shift") {
        Ok(ComboParts { ctrl: st.ctrl, alt: st.alt, shift: true, super_key: st.super_key, key: st.key })
    } else if chars_eq_str(word, "super") || chars_eq_str(word, "win") || chars_eq_str(word, "windows") {
        Ok(ComboParts { ctrl: st.ctrl, alt: st.alt, shift: st.shift, super_key: true, key: st.key })
    } else if chars_eq_str(word, "space") {
        Ok(ComboParts { ctrl: st.ctrl, alt: st.alt, shift: st.shift, super_key: st.super_key, key: Some(ComboKey::Space) })
    } else if word.len() == 1 && (word[0] as u32) < 128 {
        let u = word[0] as u32;
        if 97 <= u && u <= 122 {
            Ok(ComboParts { ctrl: st.ctrl, alt: st.alt, shift: st.shift, super_key: st.super_key, key: Some(ComboKey::Letter((u - 97) as u8)) })
        } else if 65 <= u && u <= 90 {
            Ok(ComboParts { ctrl: st.ctrl, alt: st.alt, shift: st.shift, super_key: st.super_key, key: Some(ComboKey::Letter((u - 65) as u8)) })
        } else {
            let mut m = String::new();
            push_str(&mut m, "Unsupported shortcut key: ");
            push_chars(&mut m, word);
            Err(m)
        }
    } else {
        let mut m = String::new();
        push_str(&mut m, "Unsupported shortcut token: ");
        push_chars(&mut m, word);
        Err(m)
    }
}

/// Reads a combination such as `ctrl+alt+r`: pieces between `+` signs,
/// each trimmed and lowercased, name modifiers (`ctrl`/`control`, `alt`,
/// `shift`, `super`/`win`/`windows`), `space`, or a single ASCII letter;
/// the last key named wins. Anything else, or no key at all, is an error.
pub fn parse_combo(combo: &str) -> (r: Result<ParsedCombo, String>)
    ensures
        match (r, spec_parse_combo(combo@)) {
            (Ok(a), Ok(b)) => a == b,
            (Err(m), Err(n)) => m@ == n,
            _ => false,
        },
{
    let chars = chars_of(combo);
    let pieces = split_on_plus(&chars);
    let ghost views = piece_views(pieces@);
    let mut st = ComboParts { ctrl: false, alt: false, shift: false, super_key: false, key: None };
    let mut i: usize = 0;
    assert(views.take(0) =~= Seq::<Seq<char>>::empty());
    while i < pieces.len()
        invariant
            0 <= i <= pieces.len(),
            views == piece_views(pieces@),
            views == split_plus(combo@),
            parse_pieces(views.take(i as int)) == Ok::<ComboParts, Seq<char>>(st),
        decreases pieces.len() - i,
    {
        let word = piece_word(&pieces[i]);
        let ghost pre = views.take(i + 1);
        assert(pre.drop_last() =~= views.take(i as int));
        assert(pre.last() == pieces@[i as int]@);
        match combo_step(st, &word) {
            Ok(next) => {
                st = next;
            },
            Err(m) => {
                assert(parse_pieces(pre) == combo_word_step(st, word@));
                proof {
                    lemma_parse_pieces_error_sticks(views, i as int + 1);
                }
                assert(views.take(views.len() as int) =~= views);
                assert(parse_pieces(views) == Err::<ComboParts, Seq<char>>(m@));
                assert(views == split_plus(combo@));
                return Err(m);
            },
        }
        i = i + 1;
    }
    assert(views.take(views.len() as int) =~= views);
    assert(views == split_plus(combo@));
    match st.key {
        None => {
            let mut m = String::new();
            push_str(&mut m, "Shortcut combo has no key.");
            Err(m)
        },
        Some(k) => Ok(ParsedCombo { ctrl: st.ctrl, alt: st.alt, shift: st.shift, super_key: st.super_key, key: k }),
    }
}

/// Once some piece is bad, no later piece changes the error.
pub proof fn lemma_parse_pieces_error_sticks(pieces: Seq<Seq<char>>, n: int)
    requires
        0 <= n <= pieces.len(),
        parse_pieces(pieces.take(n)) is Err,
    ensures
        parse_pieces(pieces) == parse_pieces(pieces.take(n)),
    decreases pieces.len() - n,
{
    if n < pieces.len() {
        let next = pieces.take(n + 1);
        assert(next.drop_last() =~= pieces.take(n));
        lemma_parse_pieces_error_sticks(pieces, n + 1);
    } else {
        assert(pieces.take(n) =~= pieces);
    }
}

} // verus!

verus! {

/// The combination bound to each action.
pub struct ShortcutBindings {
    pub screenshot: String,
    pub record_toggle: String,
    pub descriptor: String,
}

impl View for ShortcutBindings {
    type V = (Seq<char>, Seq<char>, Seq<char>);

    open spec fn view(&self) -> (Seq<char>, Seq<char>, Seq<char>) {
        (self.screenshot@, self.record_toggle@, self.descriptor@)
    }
}

/// The combination bound to `action` in the bindings `b`.
pub open spec fn bound(b: (Seq<char>, Seq<char>, Seq<char>), action: ShortcutAction) -> Seq<char> {
    match action {
        ShortcutAction::Screenshot => b.0,
        ShortcutAction::RecordToggle => b.1,
        ShortcutAction::Descriptor => b.2,
    }
}

/// The bindings `b` with `action` bound to `combo`.
pub open spec fn rebound(b: (Seq<char>, Seq<char>, Seq<char>), action: ShortcutAction, combo: Seq<char>) -> (
    Seq<char>,
    Seq<char>,
    Seq<char>,
) {
    match action {
        ShortcutAction::Screenshot => (combo, b.1, b.2),
        ShortcutAction::RecordToggle => (b.0, combo, b.2),
        ShortcutAction::Descriptor => (b.0, b.1, combo),
    }
}

/// No two actions share a combination.
pub open spec fn distinct_bindings(b: (Seq<char>, Seq<char>, Seq<char>)) -> bool {
    b.0 != b.1 && b.0 != b.2 && b.1 != b.2
}

/// The bindings every action starts with.
pub open spec fn default_bindings() -> (Seq<char>, Seq<char>, Seq<char>) {
    ("ctrl+alt+space"@, "ctrl+alt+r"@, "ctrl+alt+d"@)
}

/// The descriptor's default combination, used where a settings file has
/// no descriptor binding.
pub fn default_descriptor_combo() -> (r: String)
    ensures
        r@ == ShortcutAction::Descriptor.spec_default_combo(),
{
    String::from_str(ShortcutAction::Descriptor.default_combo())
}

impl ShortcutBindings {
    /// Each action bound to its default combination.
    pub fn defaults() -> (r: ShortcutBindings)
        ensures
            r@ == default_bindings(),
    {
        ShortcutBindings {
            screenshot: String::from_str(ShortcutAction::Screenshot.default_combo()),
            record_toggle: String::from_str(ShortcutAction::RecordToggle.default_combo()),
            descriptor: String::from_str(ShortcutAction::Descriptor.default_combo()),
        }
    }

    /// The combination bound to `action`.
    pub fn get(&self, action: ShortcutAction) -> (r: &str)
        ensures
            r@ == bound(self@, action),
    {
        match action {
            ShortcutAction::Screenshot => self.screenshot.as_str(),
            ShortcutAction::RecordToggle => self.record_toggle.as_str(),
            ShortcutAction::Descriptor => self.descriptor.as_str(),
        }
    }

    /// Binds `action` to `combo`, leaving the other actions as they were.
    pub fn set(&mut self, action: ShortcutAction, combo: String)
        ensures
            final(self)@ == rebound(old(self)@, action, combo@),
    {
        match action {
            ShortcutAction::Screenshot => self.screenshot = combo,
            ShortcutAction::RecordToggle => self.record_toggle = combo,
            ShortcutAction::Descriptor => self.descriptor = combo,
        }
    }

    /// A copy of these bindings.
    pub fn duplicate(&self) -> (r: ShortcutBindings)
        ensures
            r@ == self@,
    {
        ShortcutBindings {
            screenshot: self.screenshot.clone(),
            record_toggle: self.record_toggle.clone(),
            descriptor: self.descriptor.clone(),
        }
    }
}

impl Default for ShortcutBindings {
    fn default() -> (r: ShortcutBindings)
        ensures
            r@ == default_bindings(),
    {
        ShortcutBindings::defaults()
    }
}

/// The answer to a request to change one shortcut: whether it took
/// effect, why not (`invalid`, `duplicate` or `conflict`), and the
/// bindings as they stand afterwards.
pub struct SetShortcutResponse {
    pub ok: bool,
    pub reason: Option<String>,
    pub bindings: ShortcutBindings,
}

/// What to do with a request to bind an action to a combination.
pub enum ShortcutChange {
    /// Refused before anything was unregistered.
    Rejected(SetShortcutResponse),
    /// Try to register `combo` for `action`, first unregistering the
    /// previous combination when it differs.
    Register { action: ShortcutAction, previous_combo: String, unregister_previous: bool },
}

/// Whether another action than `action` is already bound to `combo`.
pub open spec fn taken_by_other(b: (Seq<char>, Seq<char>, Seq<char>), action: ShortcutAction, combo: Seq<char>) -> bool {
    exists|other: ShortcutAction| other != action && bound(b, other) == combo
}

/// The decision on a request, before any registration: an unknown action
/// is an error; an unreadable combination is rejected as `invalid`, one
/// bound to another action as `duplicate`; otherwise the combination is to
/// be registered.
pub open spec fn shortcut_decision(b: (Seq<char>, Seq<char>, Seq<char>), action_key: Seq<char>, combo: Seq<char>) -> Result<
    Option<Seq<char>>,
    Seq<char>,
> {
    match ShortcutAction::spec_from_key(action_key) {
        Err(m) => Err(m),
        Ok(action) => if spec_parse_combo(combo) is Err {
            Ok(Some("invalid"@))
        } else if taken_by_other(b, action, combo) {
            Ok(Some("duplicate"@))
        } else {
            Ok(None)
        },
    }
}

/// Checks a request to bind the action named `action_key` to `combo`
/// against the current bindings. `Ok(Rejected(..))` carries the refusal and
/// the unchanged bindings; `Ok(Register { .. })` says which combination was
/// bound before and whether it must be unregistered first.
pub fn check_shortcut_change(bindings: &ShortcutBindings, action_key: &str, combo: &str) -> (r: Result<ShortcutChange, String>)
    ensures
        match (r, shortcut_decision(bindings@, action_key@, combo@)) {
            (Err(m), Err(n)) => m@ == n,
            (Ok(ShortcutChange::Rejected(resp)), Ok(Some(reason))) => !resp.ok && resp.reason == Some(
                resp.reason->0,
            ) && resp.reason->0@ == reason && resp.bindings@ == bindings@,
            (Ok(ShortcutChange::Register { action, previous_combo, unregister_previous }), Ok(None)) => {
                &&& ShortcutAction::spec_from_key(action_key@) == Ok::<ShortcutAction, Seq<char>>(action)
                &&& previous_combo@ == bound(bindings@, action)
                &&& unregister_previous == (previous_combo@ != combo@)
            },
            _ => false,
        },
{
    let action = match ShortcutAction::from_key(action_key) {
        Ok(a) => a,
        Err(m) => return Err(m),
    };
    if parse_combo(combo).is_err() {
        let mut reason = String::new();
        push_str(&mut reason, "invalid");
        return Ok(ShortcutChange::Rejected(SetShortcutResponse { ok: false, reason: Some(reason), bindings: bindings.duplicate() }));
    }
    let all = ShortcutAction::all();
    let mut duplicate = false;
    let mut k: usize = 0;
    while k < 3
        invariant
            0 <= k <= 3,
            all@ == seq![ShortcutAction::Screenshot, ShortcutAction::RecordToggle, ShortcutAction::Descriptor],
            duplicate == exists|q: int| 0 <= q < k && all@[q] != action && bound(bindings@, all@[q]) == combo@,
        decreases 3 - k,
    {
        let other = all[k];
        if other != action && crate::text::str_eq(bindings.get(other), combo) {
            duplicate = true;
        }
        k = k + 1;
    }
    proof {
        if taken_by_other(bindings@, action, combo@) {
            let other = choose|other: ShortcutAction| other != action && bound(bindings@, other) == combo@;
            match other {
                ShortcutAction::Screenshot => assert(all@[0] == other),
                ShortcutAction::RecordToggle => assert(all@[1] == other),
                ShortcutAction::Descriptor => assert(all@[2] == other),
            }
        }
    }
    if duplicate {
        let mut reason = String::new();
        push_str(&mut reason, "duplicate");
        return Ok(ShortcutChange::Rejected(SetShortcutResponse { ok: false, reason: Some(reason), bindings: bindings.duplicate() }));
    }
    let previous = bindings.get(action);
    let unregister_previous = !crate::text::str_eq(previous, combo);
    Ok(ShortcutChange::Register { action, previous_combo: String::from_str(previous), unregister_previous })
}

/// Records the outcome of registering `combo` for `action`: when the
/// registration succeeded the binding changes; otherwise the bindings stay
/// as they were and the answer is `conflict`.
pub fn complete_shortcut_change(bindings: &mut ShortcutBindings, action: ShortcutAction, combo: String, registered: bool) -> (r: SetShortcutResponse)
    ensures
        registered ==> final(bindings)@ == rebound(old(bindings)@, action, combo@) && r.ok && r.reason is None,
        !registered ==> final(bindings)@ == old(bindings)@ && !r.ok && r.reason is Some && r.reason->0@ == "conflict"@,
        r.bindings@ == final(bindings)@,
{
    if registered {
        bindings.set(action, combo);
        SetShortcutResponse { ok: true, reason: None, bindings: bindings.duplicate() }
    } else {
        let mut reason = String::new();
        push_str(&mut reason, "conflict");
        SetShortcutResponse { ok: false, reason: Some(reason), bindings: bindings.duplicate() }
    }
}

/// Binding an action to a combination that no other action holds keeps
/// every action's combination distinct from the others'.
pub proof fn law_accepted_change_keeps_bindings_distinct(
    b: (Seq<char>, Seq<char>, Seq<char>),
    action_key: Seq<char>,
    combo: Seq<char>,
)
    requires
        distinct_bindings(b),
        shortcut_decision(b, action_key, combo) == Ok::<Option<Seq<char>>, Seq<char>>(None),
    ensures
        distinct_bindings(rebound(b, ShortcutAction::spec_from_key(action_key)->Ok_0, combo)),
{
    let action = ShortcutAction::spec_from_key(action_key)->Ok_0;
    assert(!taken_by_other(b, action, combo));
    match action {
        ShortcutAction::Screenshot => {
            assert(bound(b, ShortcutAction::RecordToggle) != combo);
            assert(bound(b, ShortcutAction::Descriptor) != combo);
        },
        ShortcutAction::RecordToggle => {
            assert(bound(b, ShortcutAction::Screenshot) != combo);
            assert(bound(b, ShortcutAction::Descriptor) != combo);
        },
        ShortcutAction::Descriptor => {
            assert(bound(b, ShortcutAction::Screenshot) != combo);
            assert(bound(b, ShortcutAction::RecordToggle) != combo);
        },
    }
}

/// The default bindings give each action its own combination.
pub proof fn law_default_bindings_distinct()
    ensures
        distinct_bindings(default_bindings()),
{
    reveal_strlit("ctrl+alt+space");
    reveal_strlit("ctrl+alt+r");
    reveal_strlit("ctrl+alt+d");
    assert("ctrl+alt+space"@.len() != "ctrl+alt+r"@.len());
    assert("ctrl+alt+space"@.len() != "ctrl+alt+d"@.len());
    assert("ctrl+alt+r"@[9] != "ctrl+alt+d"@[9]);
}

pub open spec fn spec_registration_failures(results: Seq<Result<(), Seq<char>>>, actions: Seq<ShortcutAction>) -> Seq<(Seq<char>, Seq<char>)>
    decreases results.len(),
{
    if results.len() == 0 || actions.len() < results.len() {
        Seq::empty()
    } else {
        let rest = spec_registration_failures(results.drop_last(), actions);
        match results.last() {
            Ok(()) => rest,
            Err(reason) => rest.push((actions[results.len() - 1].spec_key(), reason)),
        }
    }
}

/// The actions whose registration failed, by frontend name, each with
/// the reason it failed; `results[i]` is the outcome for
/// `ShortcutAction::all()[i]`.
pub fn registration_failures(results: &Vec<Result<(), String>>) -> (r: Vec<(String, String)>)
    requires
        results.len() == 3,
    ensures
        r@.map_values(|f: (String, String)| (f.0@, f.1@)) == spec_registration_failures(
            results@.map_values(|x: Result<(), String>| match x { Ok(()) => Ok(()), Err(m) => Err(m@) }),
            seq![ShortcutAction::Screenshot, ShortcutAction::RecordToggle, ShortcutAction::Descriptor],
        ),
{
    let all = ShortcutAction::all();
    let ghost rv = results@.map_values(|x: Result<(), String>| match x { Ok(()) => Ok(()), Err(m) => Err(m@) });
    let ghost acts = seq![ShortcutAction::Screenshot, ShortcutAction::RecordToggle, ShortcutAction::Descriptor];
    let mut r: Vec<(String, String)> = Vec::new();
    let mut i: usize = 0;
    while i < 3
        invariant
            0 <= i <= 3,
            results.len() == 3,
            all@ == acts,
            rv == results@.map_values(|x: Result<(), String>| match x { Ok(()) => Ok(()), Err(m) => Err(m@) }),
            r@.map_values(|f: (String, String)| (f.0@, f.1@)) == spec_registration_failures(rv.take(i as int), acts),
        decreases 3 - i,
    {
        let ghost pre = rv.take(i + 1);
        assert(pre.drop_last() =~= rv.take(i as int));
        let ghost before = r@.map_values(|f: (String, String)| (f.0@, f.1@));
        match &results[i] {
            Ok(()) => {},
            Err(reason) => {
                r.push((String::from_str(all[i].key()), reason.clone()));
                assert(r@.map_values(|f: (String, String)| (f.0@, f.1@)) =~= before.push((acts[i as int].spec_key(), reason@)));
            },
        }
        i = i + 1;
    }
    assert(rv.take(3) =~= rv);
    r
}

} // verus!
