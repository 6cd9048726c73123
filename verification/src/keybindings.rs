//! Key bindings: which key, with which modifiers, runs which command.
use std::collections::HashMap;
use vstd::prelude::*;

use crate::config::commands::{copy_opt, copy_strings, texts, ArgumentModel, CommandModel};
use crate::config::{command_models, Config};
use crate::ipc::commands::WmCommands;
use crate::text::str_eq;

verus! {

broadcast use vstd::std_specs::hash::group_hash_axioms;

/// The bit of the modifier that X reports for Num Lock; key presses with
/// it count as presses without it.
pub const NUM_LOCK_MASK: u16 = 16;

/// A modifier key.
#[derive(Debug, Clone, Copy, PartialEq, Eq, Structural)]
pub enum ModifierKey {
    Ctrl,
    Alt,
    Shift,
    Meta,
}

/// The modifier that a key name of the configuration stands for.
pub open spec fn modifier_named(name: Seq<char>) -> Option<ModifierKey> {
    if name == "C"@ {
        Some(ModifierKey::Ctrl)
    } else if name == "A"@ {
        Some(ModifierKey::Alt)
    } else if name == "S"@ {
        Some(ModifierKey::Shift)
    } else if name == "M"@ {
        Some(ModifierKey::Meta)
    } else {
        None
    }
}

impl ModifierKey {
    /// The bit of the modifier in the state of a key event.
    pub open spec fn mask_spec(self) -> u16 {
        match self {
            ModifierKey::Shift => 1,
            ModifierKey::Ctrl => 4,
            ModifierKey::Alt => 8,
            ModifierKey::Meta => 64,
        }
    }

    /// The bit of the modifier in the state of a key event.
    pub fn mask(&self) -> (r: u16)
        ensures
            r == self.mask_spec(),
    {
        match self {
            ModifierKey::Shift => 1,
            ModifierKey::Ctrl => 4,
            ModifierKey::Alt => 8,
            ModifierKey::Meta => 64,
        }
    }

    /// The modifier of a key name of the configuration: `C`, `A`, `S` or `M`.
    pub fn try_from(key: String) -> (r: Result<ModifierKey, &'static str>)
        ensures
            match modifier_named(key@) {
                Some(m) => r == Ok::<ModifierKey, &'static str>(m),
                None => r is Err && r->Err_0@ == "Invalid modifier key"@,
            },
    {
        let k = key.as_str();
        if str_eq(k, "C") {
            Ok(ModifierKey::Ctrl)
        } else if str_eq(k, "A") {
            Ok(ModifierKey::Alt)
        } else if str_eq(k, "S") {
            Ok(ModifierKey::Shift)
        } else if str_eq(k, "M") {
            Ok(ModifierKey::Meta)
        } else {
            Err("Invalid modifier key")
        }
    }
}

/// A key and the modifiers held with it.
#[derive(Debug, Clone, Copy, PartialEq, Eq, Structural)]
pub struct KeyCode {
    /// The bits of the modifiers.
    pub mask: u16,
    /// The key code.
    pub code: u8,
}

/// A bound key and the command it runs.
#[derive(Debug)]
pub struct KeyEvent {
    pub keycode: KeyCode,
    pub args: Option<String>,
    pub event: WmCommands,
}

/// A bound key as a value.
pub struct KeyEventModel {
    pub keycode: KeyCode,
    pub args: Option<Seq<char>>,
    pub event: WmCommands,
}

impl View for KeyEvent {
    type V = KeyEventModel;

    open spec fn view(&self) -> KeyEventModel {
        KeyEventModel {
            keycode: self.keycode,
            args: match self.args {
                Some(a) => Some(a@),
                None => None,
            },
            event: self.event,
        }
    }
}

impl KeyEvent {
    /// A copy of the bound key.
    pub fn duplicate(&self) -> (r: KeyEvent)
        ensures
            r@ == self@,
    {
        KeyEvent { keycode: self.keycode, args: copy_opt(&self.args), event: self.event }
    }
}

/// The bound keys as values.
pub open spec fn event_models(v: Seq<KeyEvent>) -> Seq<KeyEventModel> {
    v.map_values(|e: KeyEvent| e@)
}

/// Whether a character is white space in the sense of Unicode (the
/// characters that `char::is_whitespace` accepts).
pub open spec fn is_white(c: char) -> bool {
    let u = c as u32;
    ||| 0x9 <= u <= 0xd
    ||| u == 0x20
    ||| u == 0x85
    ||| u == 0xa0
    ||| u == 0x1680
    ||| 0x2000 <= u <= 0x200a
    ||| u == 0x2028
    ||| u == 0x2029
    ||| u == 0x202f
    ||| u == 0x205f
    ||| u == 0x3000
}

/// Whether a character is white space in the sense of Unicode.
pub fn white(c: char) -> (r: bool)
    ensures
        r == is_white(c),
{
    let u = c as u32;
    (0x9 <= u && u <= 0xd) || u == 0x20 || u == 0x85 || u == 0xa0 || u == 0x1680 || (0x2000 <= u
        && u <= 0x200a) || u == 0x2028 || u == 0x2029 || u == 0x202f || u == 0x205f || u == 0x3000
}

/// The lines of `s` from position `i` on, after the lines `done` and the
/// start `cur` of the current line: the texts between line feeds.
pub open spec fn lines_from(s: Seq<char>, i: int, done: Seq<Seq<char>>, cur: Seq<char>) -> Seq<Seq<char>>
    decreases s.len() - i,
{
    if i >= s.len() {
        done.push(cur)
    } else if s[i] == '\n' {
        lines_from(s, i + 1, done.push(cur), Seq::empty())
    } else {
        lines_from(s, i + 1, done, cur.push(s[i]))
    }
}

/// The texts between the line feeds of `s`.
pub open spec fn lines_of(s: Seq<char>) -> Seq<Seq<char>> {
    lines_from(s, 0, Seq::empty(), Seq::empty())
}

/// `done` with the word `cur` added, unless it is empty.
pub open spec fn close_word(done: Seq<Seq<char>>, cur: Seq<char>) -> Seq<Seq<char>> {
    if cur.len() > 0 {
        done.push(cur)
    } else {
        done
    }
}

/// The words of `s` from position `i` on, after the words `done` and the
/// start `cur` of the current word: the maximal runs of characters that
/// are not white space.
pub open spec fn words_from(s: Seq<char>, i: int, done: Seq<Seq<char>>, cur: Seq<char>) -> Seq<Seq<char>>
    decreases s.len() - i,
{
    if i >= s.len() {
        close_word(done, cur)
    } else if is_white(s[i]) {
        words_from(s, i + 1, close_word(done, cur), Seq::empty())
    } else {
        words_from(s, i + 1, done, cur.push(s[i]))
    }
}

/// The maximal runs of characters of `s` that are not white space.
pub open spec fn words_of(s: Seq<char>) -> Seq<Seq<char>> {
    words_from(s, 0, Seq::empty(), Seq::empty())
}

/// The value of a string of decimal digits.
pub open spec fn digits_value(ds: Seq<char>) -> int
    decreases ds.len(),
{
    if ds.len() == 0 {
        0
    } else {
        digits_value(ds.drop_last()) * 10 + (ds.last() as int - '0' as int)
    }
}

/// Whether every character is an ASCII digit.
pub open spec fn all_digits(ds: Seq<char>) -> bool {
    forall|i: int| 0 <= i < ds.len() ==> '0' <= #[trigger] ds[i] <= '9'
}

/// What parsing a `u8` gives: an optional `+` followed by at least one
/// decimal digit, of value at most 255.
pub open spec fn parse_u8_spec(w: Seq<char>) -> Option<u8> {
    let ds = if w.len() > 0 && w[0] == '+' {
        w.drop_first()
    } else {
        w
    };
    if ds.len() > 0 && all_digits(ds) && digits_value(ds) <= 255 {
        Some(digits_value(ds) as u8)
    } else {
        None
    }
}

/// The key map entries of lines of `xmodmap -pke` output: for each line
/// with more than three words, the fourth word (the key name) with the
/// second (the key code); none when such a key code is not a `u8`.
pub open spec fn keymap_entries(lines: Seq<Seq<char>>) -> Option<Seq<(Seq<char>, u8)>>
    decreases lines.len(),
{
    if lines.len() == 0 {
        Some(Seq::empty())
    } else {
        match keymap_entries(lines.drop_last()) {
            None => None,
            Some(o) => {
                let ws = words_of(lines.last());
                if ws.len() > 3 {
                    match parse_u8_spec(ws[1]) {
                        Some(v) => Some(o.push((ws[3], v))),
                        None => None,
                    }
                } else {
                    Some(o)
                }
            },
        }
    }
}

/// The key map entries as texts.
pub open spec fn entry_texts(v: Seq<(String, u8)>) -> Seq<(Seq<char>, u8)> {
    v.map_values(|e: (String, u8)| (e.0@, e.1))
}

/// Splits a text at its line feeds.
pub fn split_lines(s: &str) -> (r: Vec<String>)
    ensures
        texts(r@) == lines_of(s@),
{
    let n = s.unicode_len();
    let mut done: Vec<String> = Vec::new();
    let mut start: usize = 0;
    let mut i: usize = 0;
    assert(texts(done@) =~= Seq::<Seq<char>>::empty());
    assert(s@.subrange(0, 0) =~= Seq::<char>::empty());
    while i < n
        invariant
            n == s@.len(),
            start <= i <= n,
            lines_of(s@) == lines_from(s@, i as int, texts(done@), s@.subrange(start as int, i as int)),
        decreases n - i,
    {
        let c = s.get_char(i);
        if c == '\n' {
            let line = String::from_str(s.substring_char(start, i));
            assert(texts(done@.push(line)) =~= texts(done@).push(line@));
            done.push(line);
            start = i + 1;
            assert(s@.subrange(start as int, i + 1) =~= Seq::<char>::empty());
        } else {
            assert(s@.subrange(start as int, i + 1) =~= s@.subrange(start as int, i as int).push(c));
        }
        i = i + 1;
    }
    let line = String::from_str(s.substring_char(start, n));
    assert(texts(done@.push(line)) =~= texts(done@).push(line@));
    done.push(line);
    done
}

/// Splits a text into its maximal runs of characters that are not white
/// space.
pub fn split_words(s: &str) -> (r: Vec<String>)
    ensures
        texts(r@) == words_of(s@),
{
    let n = s.unicode_len();
    let mut done: Vec<String> = Vec::new();
    let mut start: usize = 0;
    let mut i: usize = 0;
    assert(texts(done@) =~= Seq::<Seq<char>>::empty());
    assert(s@.subrange(0, 0) =~= Seq::<char>::empty());
    while i < n
        invariant
            n == s@.len(),
            start <= i <= n,
            words_of(s@) == words_from(s@, i as int, texts(done@), s@.subrange(start as int, i as int)),
        decreases n - i,
    {
        let c = s.get_char(i);
        if white(c) {
            if start < i {
                let word = String::from_str(s.substring_char(start, i));
                assert(texts(done@.push(word)) =~= texts(done@).push(word@));
                done.push(word);
            }
            start = i + 1;
            assert(s@.subrange(start as int, i + 1) =~= Seq::<char>::empty());
        } else {
            assert(s@.subrange(start as int, i + 1) =~= s@.subrange(start as int, i as int).push(c));
        }
        i = i + 1;
    }
    if start < n {
        let word = String::from_str(s.substring_char(start, n));
        assert(texts(done@.push(word)) =~= texts(done@).push(word@));
        done.push(word);
    }
    done
}

/// Parses a `u8`: an optional `+` followed by decimal digits.
pub fn parse_u8(w: &str) -> (r: Option<u8>)
    ensures
        r == parse_u8_spec(w@),
{
    let n = w.unicode_len();
    let mut i: usize = 0;
    if n > 0 && w.get_char(0) == '+' {
        i = 1;
    }
    let ghost ds = if w@.len() > 0 && w@[0] == '+' {
        w@.drop_first()
    } else {
        w@
    };
    assert(ds =~= w@.subrange(i as int, n as int));
    if i == n {
        return None;
    }
    let first = i;
    let mut value: u32 = 0;
    while i < n
        invariant
            n == w@.len(),
            first < n,
            first <= i <= n,
            ds == w@.subrange(first as int, n as int),
            ds == (if w@.len() > 0 && w@[0] == '+' {
                w@.drop_first()
            } else {
                w@
            }),
            all_digits(w@.subrange(first as int, i as int)),
            value == digits_value(w@.subrange(first as int, i as int)),
            value <= 255,
        decreases n - i,
    {
        let c = w.get_char(i);
        let ghost sub = w@.subrange(first as int, i + 1);
        assert(sub.drop_last() =~= w@.subrange(first as int, i as int));
        if c < '0' || c > '9' {
            assert(!all_digits(ds)) by {
                assert(ds[i - first] == c);
            }
            return None;
        }
        let d = (c as u32) - ('0' as u32);
        if value * 10 + d > 255 {
            proof {
                if all_digits(ds) {
                    lemma_digits_value_grows(ds, i + 1 - first);
                    assert(ds.take(i + 1 - first) =~= sub);
                }
            }
            return None;
        }
        value = value * 10 + d;
        i = i + 1;
    }
    assert(w@.subrange(first as int, n as int) =~= ds);
    Some(value as u8)
}

/// The value of a digit string is at least that of any prefix.
proof fn lemma_digits_value_grows(ds: Seq<char>, k: int)
    requires
        all_digits(ds),
        0 <= k <= ds.len(),
    ensures
        digits_value(ds) >= digits_value(ds.take(k)),
    decreases ds.len(),
{
    if k < ds.len() {
        assert(ds.drop_last().take(k) =~= ds.take(k));
        assert(all_digits(ds.drop_last()));
        lemma_digits_value_grows(ds.drop_last(), k);
        lemma_digits_value_nonneg(ds.drop_last());
        assert('0' <= ds.last() <= '9');
    } else {
        assert(ds.take(k) =~= ds);
    }
}

/// The value of a digit string is not negative.
proof fn lemma_digits_value_nonneg(ds: Seq<char>)
    requires
        all_digits(ds),
    ensures
        digits_value(ds) >= 0,
    decreases ds.len(),
{
    if ds.len() > 0 {
        assert(all_digits(ds.drop_last()));
        lemma_digits_value_nonneg(ds.drop_last());
        assert('0' <= ds.last() <= '9');
    }
}

/// The key map of `xmodmap -pke` output: for each line with more than three
/// words, the fourth word (the key name) with the second (the key code).
/// None when such a key code is not a `u8`, where the window manager cannot
/// start.
pub fn keycodes_map(output: &str) -> (r: Option<Vec<(String, u8)>>)
    ensures
        match keymap_entries(lines_of(output@)) {
            Some(e) => r is Some && entry_texts(r->Some_0@) == e,
            None => r is None,
        },
{
    let lines = split_lines(output);
    let ghost ls = texts(lines@);
    let mut map: Vec<(String, u8)> = Vec::new();
    let mut n: usize = 0;
    while n < lines.len()
        invariant
            n <= lines@.len(),
            ls == texts(lines@),
            ls == lines_of(output@),
            keymap_entries(ls.take(n as int)) == Some(entry_texts(map@)),
        decreases lines@.len() - n,
    {
        let words = split_words(lines[n].as_str());
        let ghost ws = texts(words@);
        assert(ls.take(n + 1).drop_last() =~= ls.take(n as int));
        assert(ls.take(n + 1).last() == lines@[n as int]@);
        if words.len() > 3 {
            assert(ws[1] == words@[1]@);
            assert(ws[3] == words@[3]@);
            match parse_u8(words[1].as_str()) {
                Some(code) => {
                    let name = words[3].clone();
                    assert(entry_texts(map@.push((name, code))) =~= entry_texts(map@).push((ws[3], code)));
                    map.push((name, code));
                },
                None => {
                    proof {
                        lemma_entries_stay_none(ls, n as int + 1);
                    }
                    return None;
                },
            }
        }
        n = n + 1;
    }
    assert(ls.take(n as int) =~= ls);
    Some(map)
}

/// Once a prefix of the lines has no entries, no longer prefix has.
proof fn lemma_entries_stay_none(lines: Seq<Seq<char>>, k: int)
    requires
        0 <= k <= lines.len(),
        keymap_entries(lines.take(k)) is None,
    ensures
        keymap_entries(lines) is None,
    decreases lines.len() - k,
{
    if k < lines.len() {
        assert(lines.take(k + 1).drop_last() =~= lines.take(k));
        lemma_entries_stay_none(lines, k + 1);
    } else {
        assert(lines.take(k) =~= lines);
    }
}

/// The key code of a key name: the last entry of the key map with that
/// name counts.
pub open spec fn keymap_lookup(keymap: Seq<(String, u8)>, name: Seq<char>) -> Option<u8>
    decreases keymap.len(),
{
    if keymap.len() == 0 {
        None
    } else if keymap.last().0@ == name {
        Some(keymap.last().1)
    } else {
        keymap_lookup(keymap.drop_last(), name)
    }
}

/// The key code of key `keyname`, if the key map has one.
pub fn keyname_to_keycode(keyname: &str, keymap: &Vec<(String, u8)>) -> (r: Option<u8>)
    ensures
        r == keymap_lookup(keymap@, keyname@),
{
    let mut i: usize = keymap.len();
    assert(keymap@.take(i as int) =~= keymap@);
    while i > 0
        invariant
            i <= keymap@.len(),
            keymap_lookup(keymap@, keyname@) == keymap_lookup(keymap@.take(i as int), keyname@),
        decreases i,
    {
        let entry = &keymap[i - 1];
        assert(keymap@.take(i as int).drop_last() =~= keymap@.take(i - 1));
        if str_eq(entry.0.as_str(), keyname) {
            return Some(entry.1);
        }
        i = i - 1;
    }
    None
}

/// The bits of the modifiers that the key names stand for.
pub open spec fn modifiers_mask(mods: Seq<Seq<char>>) -> u16
    decreases mods.len(),
{
    if mods.len() == 0 {
        0
    } else {
        modifiers_mask(mods.drop_last()) | modifier_named(mods.last())->Some_0.mask_spec()
    }
}

/// Whether a binding's keys name modifiers, then one key that the key map
/// knows.
pub open spec fn keys_resolve(keys: Seq<Seq<char>>, keymap: Seq<(String, u8)>) -> bool {
    &&& keys.len() > 0
    &&& keymap_lookup(keymap, keys.last()) is Some
    &&& forall|i: int| 0 <= i < keys.len() - 1 ==> #[trigger] modifier_named(keys[i]) is Some
}

/// The key code that a binding's keys stand for.
pub open spec fn keycode_of(keys: Seq<Seq<char>>, keymap: Seq<(String, u8)>) -> KeyCode {
    KeyCode {
        mask: modifiers_mask(keys.drop_last()),
        code: keymap_lookup(keymap, keys.last())->Some_0,
    }
}

/// The key code of a binding: its last key, which is taken off `keys`, with
/// the keys left as modifiers.
pub fn convert_to_keycode(keys: &mut Vec<String>, keymap: &Vec<(String, u8)>) -> (r: KeyCode)
    requires
        keys_resolve(texts(old(keys)@), keymap@),
    ensures
        r == keycode_of(texts(old(keys)@), keymap@),
        final(keys)@ == old(keys)@.drop_last(),
{
    let ghost names = texts(keys@);
    let keyname = match keys.pop() {
        Some(k) => k,
        None => String::new(),
    };
    assert(names.last() == keyname@);
    let code = match keyname_to_keycode(keyname.as_str(), keymap) {
        Some(c) => c,
        None => 0,
    };
    let mut mask: u16 = 0;
    let mut i: usize = 0;
    let n = keys.len();
    while i < n
        invariant
            n == keys@.len(),
            n == names.len() - 1,
            i <= n,
            keys@ == old(keys)@.drop_last(),
            names == texts(old(keys)@),
            keys_resolve(names, keymap@),
            mask == modifiers_mask(names.take(i as int)),
        decreases n - i,
    {
        assert(names[i as int] == keys@[i as int]@);
        let modifier = match ModifierKey::try_from(keys[i].clone()) {
            Ok(m) => m,
            Err(_) => ModifierKey::Shift,
        };
        assert(names.take(i + 1).drop_last() =~= names.take(i as int));
        mask = mask | modifier.mask();
        i = i + 1;
    }
    assert(names.take(n as int) =~= names.drop_last());
    KeyCode { mask, code }
}

/// Whether the keys of a binding name modifiers, then one key that the key
/// map knows.
pub fn check_keys(keys: &Vec<String>, keymap: &Vec<(String, u8)>) -> (r: bool)
    ensures
        r == keys_resolve(texts(keys@), keymap@),
{
    let ghost names = texts(keys@);
    if keys.len() == 0 {
        return false;
    }
    let last = keys.len() - 1;
    assert(names.last() == keys@[last as int]@);
    if keyname_to_keycode(keys[last].as_str(), keymap).is_none() {
        return false;
    }
    let mut i: usize = 0;
    while i < last
        invariant
            last == keys@.len() - 1,
            i <= last,
            names == texts(keys@),
            forall|k: int| 0 <= k < i ==> #[trigger] modifier_named(names[k]) is Some,
        decreases last - i,
    {
        assert(names[i as int] == keys@[i as int]@);
        if ModifierKey::try_from(keys[i].clone()).is_err() {
            return false;
        }
        i = i + 1;
    }
    true
}

/// Whether every binding of the configuration resolves against the key
/// map, so that the bindings can be built.
pub fn all_keys_resolve(config: &Config, keymap: &Vec<(String, u8)>) -> (r: bool)
    ensures
        r == forall|i: int|
            0 <= i < config.cmds@.len() ==> keys_resolve(#[trigger] config.cmds@[i]@.keys, keymap@),
{
    let mut n: usize = 0;
    while n < config.cmds.len()
        invariant
            n <= config.cmds@.len(),
            forall|i: int| 0 <= i < n ==> keys_resolve(#[trigger] config.cmds@[i]@.keys, keymap@),
        decreases config.cmds@.len() - n,
    {
        if !check_keys(&config.cmds[n].keys, keymap) {
            assert(!keys_resolve(config.cmds@[n as int]@.keys, keymap@));
            return false;
        }
        n = n + 1;
    }
    true
}

/// The bound keys of one binding: one per command, all with the binding's
/// key code.
pub open spec fn command_events(c: CommandModel, keymap: Seq<(String, u8)>) -> Seq<KeyEventModel> {
    c.commands.map_values(
        |a: ArgumentModel| KeyEventModel { keycode: keycode_of(c.keys, keymap), args: a.1, event: a.0 },
    )
}

/// The bound keys of the bindings, in order.
pub open spec fn bindings_of(cmds: Seq<CommandModel>, keymap: Seq<(String, u8)>) -> Seq<KeyEventModel>
    decreases cmds.len(),
{
    if cmds.len() == 0 {
        Seq::empty()
    } else {
        bindings_of(cmds.drop_last(), keymap) + command_events(cmds.last(), keymap)
    }
}

/// The bound keys with key code `code`.
pub open spec fn with_code(events: Seq<KeyEventModel>, code: u8) -> Seq<KeyEventModel> {
    events.filter(|e: KeyEventModel| e.keycode.code == code)
}

/// Whether a key press with modifier state `state` triggers `e`: the state
/// is the binding's modifiers, possibly with Num Lock.
pub open spec fn triggers(e: KeyEventModel, state: u16) -> bool {
    state == e.keycode.mask || state == (e.keycode.mask | NUM_LOCK_MASK)
}

/// `keys[i]` is the first of `keys` that a press with modifier state
/// `state` triggers.
pub open spec fn first_triggered(keys: Seq<KeyEventModel>, state: u16, i: int) -> bool {
    &&& 0 <= i < keys.len()
    &&& triggers(keys[i], state)
    &&& forall|j: int| 0 <= j < i ==> !triggers(#[trigger] keys[j], state)
}

/// A press that triggers some bound key of a list triggers a first one.
proof fn lemma_first_triggered_exists(keys: Seq<KeyEventModel>, state: u16, k: int)
    requires
        0 <= k < keys.len(),
        triggers(keys[k], state),
    ensures
        exists|j: int| #[trigger] first_triggered(keys, state, j),
    decreases k,
{
    if exists|j: int| 0 <= j < k && #[trigger] triggers(keys[j], state) {
        let j = choose|j: int| 0 <= j < k && #[trigger] triggers(keys[j], state);
        lemma_first_triggered_exists(keys, state, j);
    } else {
        assert(first_triggered(keys, state, k));
    }
}

/// The bound keys of the same code as bound key `i`.
pub open spec fn same_code(kb: KeyBindings, i: int) -> Seq<KeyEventModel> {
    with_code(event_models(kb.events_vec@), kb.events_vec@[i].keycode.code)
}

/// Every bound key is found again: pressing its key with exactly its
/// modifiers, with or without Num Lock, triggers a bound key of its code.
pub proof fn lemma_bound_key_found(kb: KeyBindings, i: int)
    requires
        kb.wf(),
        0 <= i < kb.events_vec@.len(),
    ensures
        kb.events_map@.contains_key(kb.events_vec@[i].keycode.code),
        exists|j: int| #[trigger] first_triggered(same_code(kb, i), kb.events_vec@[i].keycode.mask, j),
        exists|j: int|
            #[trigger] first_triggered(
                same_code(kb, i),
                kb.events_vec@[i].keycode.mask | NUM_LOCK_MASK,
                j,
            ),
{
    let all = event_models(kb.events_vec@);
    let e = kb.events_vec@[i]@;
    let p = |x: KeyEventModel| x.keycode.code == e.keycode.code;
    assert(all[i] == e);
    all.lemma_filter_contains(p, i);
    let keys = same_code(kb, i);
    assert(keys.contains(e));
    let k = choose|k: int| 0 <= k < keys.len() && keys[k] == e;
    assert(triggers(keys[k], e.keycode.mask));
    assert(triggers(keys[k], e.keycode.mask | NUM_LOCK_MASK));
    lemma_first_triggered_exists(keys, e.keycode.mask, k);
    lemma_first_triggered_exists(keys, e.keycode.mask | NUM_LOCK_MASK, k);
}

/// The key bindings: every bound key in order, and by key code.
#[derive(Debug)]
pub struct KeyBindings {
    pub events_map: HashMap<u8, Vec<KeyEvent>>,
    pub events_vec: Vec<KeyEvent>,
}

impl KeyBindings {
    /// Every key code is mapped to exactly the bound keys with that code, in
    /// order.
    pub open spec fn wf(&self) -> bool {
        forall|c: u8|
            (#[trigger] self.events_map@.contains_key(c) <==> with_code(event_models(self.events_vec@), c).len() > 0)
                && (self.events_map@.contains_key(c) ==> event_models(self.events_map@[c]@)
                == with_code(event_models(self.events_vec@), c))
    }

    /// The key bindings of the configuration, with key codes from `keymap`.
    pub fn new(config: &Config, keymap: &Vec<(String, u8)>) -> (r: KeyBindings)
        requires
            forall|i: int|
                0 <= i < config.cmds@.len() ==> keys_resolve(#[trigger] config.cmds@[i]@.keys, keymap@),
        ensures
            r.wf(),
            event_models(r.events_vec@) == bindings_of(command_models(config.cmds@), keymap@),
    {
        let mut keybindings = KeyBindings { events_map: HashMap::new(), events_vec: Vec::new() };
        let ghost cmds = command_models(config.cmds@);
        let mut n: usize = 0;
        while n < config.cmds.len()
            invariant
                n <= config.cmds@.len(),
                cmds == command_models(config.cmds@),
                forall|i: int|
                    0 <= i < config.cmds@.len() ==> keys_resolve(#[trigger] config.cmds@[i]@.keys, keymap@),
                keybindings.wf(),
                event_models(keybindings.events_vec@) == bindings_of(cmds.take(n as int), keymap@),
            decreases config.cmds@.len() - n,
        {
            let cmd = &config.cmds[n];
            assert(cmds[n as int] == cmd@);
            assert(keys_resolve(config.cmds@[n as int]@.keys, keymap@));
            let mut keys = copy_strings(&cmd.keys);
            let keycode = convert_to_keycode(&mut keys, keymap);
            let ghost start = event_models(keybindings.events_vec@);
            let mut j: usize = 0;
            while j < cmd.commands.len()
                invariant
                    j <= cmd.commands@.len(),
                    keycode == keycode_of(cmd@.keys, keymap@),
                    keybindings.wf(),
                    event_models(keybindings.events_vec@) == start + command_events(cmd@, keymap@).take(j as int),
                decreases cmd.commands@.len() - j,
            {
                let argument = &cmd.commands[j];
                let kevent = KeyEvent { keycode, args: copy_opt(&argument.args), event: argument.command };
                assert(kevent@ == command_events(cmd@, keymap@)[j as int]);
                keybindings.add_event(kevent);
                assert(command_events(cmd@, keymap@).take(j + 1) =~= command_events(cmd@, keymap@).take(
                    j as int,
                ).push(command_events(cmd@, keymap@)[j as int]));
                j = j + 1;
            }
            assert(command_events(cmd@, keymap@).take(j as int) =~= command_events(cmd@, keymap@));
            assert(cmds.take(n + 1).drop_last() =~= cmds.take(n as int));
            n = n + 1;
        }
        assert(cmds.take(n as int) =~= cmds);
        keybindings
    }

    /// Appends a bound key to the list and to the keys of its code.
    fn add_event(&mut self, kevent: KeyEvent)
        requires
            old(self).wf(),
        ensures
            final(self).wf(),
            event_models(final(self).events_vec@) == event_models(old(self).events_vec@).push(kevent@),
    {
        let code = kevent.keycode.code;
        let copy = kevent.duplicate();
        let ghost e = kevent@;
        let ghost before = event_models(self.events_vec@);
        self.events_vec.push(kevent);
        assert(event_models(self.events_vec@) =~= before.push(e));
        let ghost p = |x: KeyEventModel| x.keycode.code == code;
        let removed = self.events_map.remove(&code);
        let mut list = match removed {
            Some(l) => l,
            None => Vec::new(),
        };
        let ghost old_list = event_models(list@);
        list.push(copy);
        assert(event_models(list@) =~= old_list.push(e));
        self.events_map.insert(code, list);
        proof {
            reveal(Seq::filter);
            assert forall|c: u8|
                (#[trigger] self.events_map@.contains_key(c) <==> with_code(event_models(self.events_vec@), c).len() > 0)
                    && (self.events_map@.contains_key(c) ==> event_models(self.events_map@[c]@)
                    == with_code(event_models(self.events_vec@), c)) by {
                assert(before.push(e).drop_last() =~= before);
                if c != code {
                    assert(with_code(before.push(e), c) == with_code(before, c));
                } else {
                    assert(with_code(before.push(e), c) == with_code(before, c).push(e));
                    if !old(self).events_map@.contains_key(c) {
                        assert(with_code(before, c).len() == 0);
                        assert(old_list =~= with_code(before, c));
                    }
                }
            }
        }
    }

    /// The first bound key of code `detail` that a press with modifier
    /// state `state` triggers, if any.
    pub fn retreive_cmd(&self, detail: u8, state: u16) -> (r: Option<KeyEvent>)
        requires
            self.wf(),
        ensures
            ({
                let keys = with_code(event_models(self.events_vec@), detail);
                match r {
                    Some(e) => exists|i: int| #[trigger] first_triggered(keys, state, i) && keys[i] == e@,
                    None => forall|i: int| 0 <= i < keys.len() ==> !triggers(#[trigger] keys[i], state),
                }
            }),
    {
        let ghost all = with_code(event_models(self.events_vec@), detail);
        let keys = match self.events_map.get(&detail) {
            Some(k) => k,
            None => {
                return None;
            },
        };
        let mut i: usize = 0;
        while i < keys.len()
            invariant
                i <= keys@.len(),
                event_models(keys@) == all,
                all == with_code(event_models(self.events_vec@), detail),
                forall|j: int| 0 <= j < i ==> !triggers(#[trigger] all[j], state),
            decreases keys@.len() - i,
        {
            let key = &keys[i];
            assert(all[i as int] == key@);
            if state == key.keycode.mask || state == key.keycode.mask | NUM_LOCK_MASK {
                let found = key.duplicate();
                assert(first_triggered(all, state, i as int));
                return Some(found);
            }
            i = i + 1;
        }
        None
    }
    /// Every bound key of code `detail` that a press with modifier state
    /// `state` triggers, in order: the commands that the press runs.
    pub fn matching_events(&self, detail: u8, state: u16) -> (r: Vec<KeyEvent>)
        requires
            self.wf(),
        ensures
            event_models(r@) == with_code(event_models(self.events_vec@), detail).filter(
                |e: KeyEventModel| triggers(e, state),
            ),
    {
        let ghost all = with_code(event_models(self.events_vec@), detail);
        let ghost p = |e: KeyEventModel| triggers(e, state);
        let mut out: Vec<KeyEvent> = Vec::new();
        let keys = match self.events_map.get(&detail) {
            Some(k) => k,
            None => {
                proof {
                    reveal(Seq::filter);
                    assert(all.len() == 0);
                    assert(all =~= Seq::<KeyEventModel>::empty());
                    assert(event_models(out@) =~= all.filter(p));
                }
                return out;
            },
        };
        let mut i: usize = 0;
        proof {
            reveal(Seq::filter);
            assert(all.take(0) =~= Seq::<KeyEventModel>::empty());
            assert(event_models(out@) =~= all.take(0).filter(p));
        }
        while i < keys.len()
            invariant
                i <= keys@.len(),
                event_models(keys@) == all,
                p == (|e: KeyEventModel| triggers(e, state)),
                event_models(out@) == all.take(i as int).filter(p),
            decreases keys@.len() - i,
        {
            let key = &keys[i];
            assert(all[i as int] == key@);
            proof {
                reveal(Seq::filter);
                assert(all.take(i + 1).drop_last() =~= all.take(i as int));
            }
            if state == key.keycode.mask || state == key.keycode.mask | NUM_LOCK_MASK {
                let copy = key.duplicate();
                let ghost before = event_models(out@);
                out.push(copy);
                assert(event_models(out@) =~= before.push(key@));
            }
            i = i + 1;
        }
        assert(all.take(i as int) =~= all);
        out
    }
}

} // verus!
