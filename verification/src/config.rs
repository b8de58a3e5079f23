//! The note-to-action mapping that the router reads.
//!
//! A configuration is built once, from the entries of a key binding table,
//! and never changes afterwards. Every key must denote a note from 0 to 127
//! and every action must be non-empty: the first entry that breaks either
//! rule makes the whole table unusable. Where several keys denote the same
//! note (`"60"`, `"060"`, `"+60"`), the entry that comes last wins.

use crate::note_key::{note_of_key, parse_note_key, KeyError, MAX_NOTE};
use std::collections::HashMap;
use vstd::prelude::*;
use vstd::string::*;

verus! {

/// Why a key binding table is refused.
#[derive(Debug, PartialEq, Eq)]
pub enum ConfigError {
    /// A key is not an optional `+` followed by decimal digits.
    KeyNotNumeric { key: String },
    /// A key is a number above 127.
    KeyOutOfRange { key: String },
    /// The action bound to a key is the empty string.
    EmptyAction { key: String },
}

/// A [`ConfigError`] as a mathematical value.
pub enum ConfigFault {
    KeyNotNumeric { key: Seq<char> },
    KeyOutOfRange { key: Seq<char> },
    EmptyAction { key: Seq<char> },
}

impl View for ConfigError {
    type V = ConfigFault;

    open spec fn view(&self) -> ConfigFault {
        match self {
            ConfigError::KeyNotNumeric { key } => ConfigFault::KeyNotNumeric { key: key@ },
            ConfigError::KeyOutOfRange { key } => ConfigFault::KeyOutOfRange { key: key@ },
            ConfigError::EmptyAction { key } => ConfigFault::EmptyAction { key: key@ },
        }
    }
}

/// The text that describes a fault to the operator.
pub open spec fn fault_text(fault: ConfigFault) -> Seq<char> {
    match fault {
        ConfigFault::KeyNotNumeric { key } => "key \""@ + key
            + "\" is not a note number: expected decimal digits"@,
        ConfigFault::KeyOutOfRange { key } => "key \""@ + key
            + "\" is out of range: note numbers are 0 to 127"@,
        ConfigFault::EmptyAction { key } => "key \""@ + key + "\" has an empty action"@,
    }
}

impl ConfigError {
    /// Describes the fault to the operator, naming the key at fault.
    pub fn message(&self) -> (text: String)
        ensures
            text@ == fault_text(self@),
    {
        let mut text = String::from_str("key \"");
        match self {
            ConfigError::KeyNotNumeric { key } => {
                text.append(key.as_str());
                text.append("\" is not a note number: expected decimal digits");
            },
            ConfigError::KeyOutOfRange { key } => {
                text.append(key.as_str());
                text.append("\" is out of range: note numbers are 0 to 127");
            },
            ConfigError::EmptyAction { key } => {
                text.append(key.as_str());
                text.append("\" has an empty action");
            },
        }
        text
    }
}

/// What is wrong with one entry, if anything. The key is examined first.
pub open spec fn entry_fault(key: Seq<char>, action: Seq<char>) -> Option<ConfigFault> {
    match note_of_key(key) {
        Err(KeyError::NotNumeric) => Some(ConfigFault::KeyNotNumeric { key }),
        Err(KeyError::OutOfRange) => Some(ConfigFault::KeyOutOfRange { key }),
        Ok(_) => if action.len() == 0 {
            Some(ConfigFault::EmptyAction { key })
        } else {
            None
        },
    }
}

/// The fault of the first faulty entry, or `None` where every entry is sound.
pub open spec fn first_fault(entries: Seq<(Seq<char>, Seq<char>)>) -> Option<ConfigFault>
    decreases entries.len(),
{
    if entries.len() == 0 {
        None
    } else {
        match first_fault(entries.drop_last()) {
            Some(fault) => Some(fault),
            None => entry_fault(entries.last().0, entries.last().1),
        }
    }
}

/// The mapping that a table of entries describes: each entry binds the note
/// of its key to its action, and a later entry replaces an earlier one for
/// the same note. An entry whose key denotes no note binds nothing.
pub open spec fn bindings_of(entries: Seq<(Seq<char>, Seq<char>)>) -> Map<u8, Seq<char>>
    decreases entries.len(),
{
    if entries.len() == 0 {
        Map::empty()
    } else {
        let earlier = bindings_of(entries.drop_last());
        match note_of_key(entries.last().0) {
            Ok(note) => earlier.insert(note, entries.last().1),
            Err(_) => earlier,
        }
    }
}

/// Every bound note is at most 127 and every action is non-empty.
pub open spec fn valid_bindings(keybinds: Map<u8, Seq<char>>) -> bool {
    forall|note: u8| #[trigger]
        keybinds.contains_key(note) ==> note <= MAX_NOTE && keybinds[note].len() > 0
}

/// The texts of a table of entries.
pub open spec fn entry_texts(entries: Seq<(String, String)>) -> Seq<(Seq<char>, Seq<char>)> {
    Seq::new(entries.len(), |i: int| (entries[i].0@, entries[i].1@))
}

/// A validated, immutable mapping from note numbers to action descriptors,
/// with the optional label of the game it was written for.
pub struct Config {
    game: Option<String>,
    keybinds: HashMap<u8, String>,
}

/// A [`Config`] as a mathematical value.
pub struct ConfigView {
    pub game: Option<Seq<char>>,
    pub keybinds: Map<u8, Seq<char>>,
}

/// The text of an optional label.
pub open spec fn label_text(label: Option<String>) -> Option<Seq<char>> {
    match label {
        Some(text) => Some(text@),
        None => None,
    }
}

/// The texts of the actions that a map holds.
pub open spec fn action_texts(keybinds: Map<u8, String>) -> Map<u8, Seq<char>> {
    Map::new(|note: u8| keybinds.contains_key(note), |note: u8| keybinds[note]@)
}

impl View for Config {
    type V = ConfigView;

    closed spec fn view(&self) -> ConfigView {
        ConfigView { game: label_text(self.game), keybinds: action_texts(self.keybinds@) }
    }
}

impl Config {
    #[verifier::type_invariant]
    spec fn well_formed(self) -> bool {
        valid_bindings(self@.keybinds)
    }

    /// Builds a configuration from the entries of a key binding table, in
    /// the order in which the table lists them.
    pub fn from_entries(game: Option<String>, entries: &[(String, String)]) -> (r: Result<
        Config,
        ConfigError,
    >)
        ensures
            match r {
                Ok(config) => {
                    &&& first_fault(entry_texts(entries@)) is None
                    &&& config@.keybinds == bindings_of(entry_texts(entries@))
                    &&& config@.game == label_text(game)
                    &&& valid_bindings(config@.keybinds)
                },
                Err(error) => first_fault(entry_texts(entries@)) == Some(error@),
            },
    {
        let ghost texts = entry_texts(entries@);
        let mut keybinds: HashMap<u8, String> = HashMap::new();
        let mut i: usize = 0;
        while i < entries.len()
            invariant
                i <= entries.len(),
                texts == entry_texts(entries@),
                first_fault(texts.take(i as int)) is None,
                action_texts(keybinds@) == bindings_of(texts.take(i as int)),
                valid_bindings(action_texts(keybinds@)),
            decreases entries.len() - i,
        {
            let entry = &entries[i];
            proof {
                let next = texts.take(i + 1);
                assert(next.drop_last() == texts.take(i as int));
            }
            match parse_note_key(entry.0.as_str()) {
                Err(KeyError::NotNumeric) => {
                    proof {
                        lemma_fault_stays(texts, i + 1);
                    }
                    return Err(ConfigError::KeyNotNumeric { key: entry.0.clone() });
                },
                Err(KeyError::OutOfRange) => {
                    proof {
                        lemma_fault_stays(texts, i + 1);
                    }
                    return Err(ConfigError::KeyOutOfRange { key: entry.0.clone() });
                },
                Ok(note) => {
                    if entry.1.as_str().is_empty() {
                        proof {
                            lemma_fault_stays(texts, i + 1);
                        }
                        return Err(ConfigError::EmptyAction { key: entry.0.clone() });
                    }
                    let ghost bound = keybinds@;
                    keybinds.insert(note, entry.1.clone());
                    assert(action_texts(keybinds@) =~= action_texts(bound).insert(
                        note,
                        entry.1@,
                    ));
                },
            }
            i += 1;
        }
        assert(texts.take(i as int) == texts);
        Ok(Config { game, keybinds })
    }

    /// The action bound to `note`, if any.
    pub fn action(&self, note: u8) -> (r: Option<&str>)
        ensures
            match r {
                Some(action) => {
                    &&& self@.keybinds.contains_key(note)
                    &&& action@ == self@.keybinds[note]
                    &&& action@.len() > 0
                    &&& note <= MAX_NOTE
                },
                None => !self@.keybinds.contains_key(note),
            },
    {
        proof {
            use_type_invariant(self);
        }
        match self.keybinds.get(&note) {
            Some(action) => Some(action.as_str()),
            None => None,
        }
    }

    /// The label of the game that the bindings were written for, if any.
    pub fn game(&self) -> (r: Option<&str>)
        ensures
            match r {
                Some(label) => self@.game == Some(label@),
                None => self@.game is None,
            },
    {
        match &self.game {
            Some(label) => Some(label.as_str()),
            None => None,
        }
    }
}

/// Loading is a function of the table: two tables with the same entries in
/// the same order give the same bindings, or the same fault.
pub proof fn law_load_is_deterministic(
    first: Seq<(Seq<char>, Seq<char>)>,
    second: Seq<(Seq<char>, Seq<char>)>,
)
    requires
        first.len() == second.len(),
        forall|i: int| 0 <= i < first.len() ==> first[i] == second[i],
    ensures
        bindings_of(first) == bindings_of(second),
        first_fault(first) == first_fault(second),
{
    assert(first =~= second);
}

/// A table is sound exactly when each of its entries is; the fault of an
/// unsound table is that of its first unsound entry.
pub proof fn law_first_fault_is_earliest(entries: Seq<(Seq<char>, Seq<char>)>)
    ensures
        first_fault(entries) is None <==> forall|i: int|
            0 <= i < entries.len() ==> (#[trigger] entry_fault(entries[i].0, entries[i].1))
                is None,
        first_fault(entries) is Some ==> exists|i: int|
            {
                &&& 0 <= i < entries.len()
                &&& #[trigger] entry_fault(entries[i].0, entries[i].1) == first_fault(entries)
                &&& forall|j: int|
                    0 <= j < i ==> (#[trigger] entry_fault(entries[j].0, entries[j].1)) is None
            },
    decreases entries.len(),
{
    if entries.len() > 0 {
        let earlier = entries.drop_last();
        let last = entries.len() - 1;
        law_first_fault_is_earliest(earlier);
        if first_fault(earlier) is Some {
            let i = choose|i: int|
                {
                    &&& 0 <= i < earlier.len()
                    &&& #[trigger] entry_fault(earlier[i].0, earlier[i].1) == first_fault(
                        earlier,
                    )
                    &&& forall|j: int|
                        0 <= j < i ==> (#[trigger] entry_fault(earlier[j].0, earlier[j].1))
                            is None
                };
            assert forall|j: int| 0 <= j < i implies (#[trigger] entry_fault(
                entries[j].0,
                entries[j].1,
            )) is None by {
                assert(entry_fault(earlier[j].0, earlier[j].1) is None);
            }
        } else {
            assert forall|i: int| 0 <= i < last implies (#[trigger] entry_fault(
                entries[i].0,
                entries[i].1,
            )) is None by {
                assert(entry_fault(earlier[i].0, earlier[i].1) is None);
            }
        }
    }
}

/// A key that denotes no note from 0 to 127, anywhere in the table, makes
/// the table unusable.
pub proof fn law_bad_key_is_refused(entries: Seq<(Seq<char>, Seq<char>)>, i: int)
    requires
        0 <= i < entries.len(),
        note_of_key(entries[i].0) is Err,
    ensures
        first_fault(entries) is Some,
{
    law_first_fault_is_earliest(entries);
    assert(entry_fault(entries[i].0, entries[i].1) is Some);
}

/// A note is bound exactly when the key of some entry denotes it.
pub proof fn law_bound_notes_have_keys(entries: Seq<(Seq<char>, Seq<char>)>, note: u8)
    ensures
        bindings_of(entries).contains_key(note) <==> exists|i: int|
            0 <= i < entries.len() && note_of_key(#[trigger] entries[i].0) == Ok::<u8, KeyError>(
                note,
            ),
    decreases entries.len(),
{
    if entries.len() > 0 {
        let earlier = entries.drop_last();
        let last = entries.len() - 1;
        law_bound_notes_have_keys(earlier, note);
        if exists|i: int|
            0 <= i < entries.len() && note_of_key(#[trigger] entries[i].0) == Ok::<u8, KeyError>(
                note,
            ) {
            let i = choose|i: int|
                0 <= i < entries.len() && note_of_key(#[trigger] entries[i].0) == Ok::<
                    u8,
                    KeyError,
                >(note);
            if i < last {
                assert(note_of_key(earlier[i].0) == Ok::<u8, KeyError>(note));
            }
        }
    }
}

/// Where several entries bind the same note, the last of them wins: a note
/// has the action of the entry after which no entry binds it again.
pub proof fn law_last_binding_wins(entries: Seq<(Seq<char>, Seq<char>)>, i: int, note: u8)
    requires
        0 <= i < entries.len(),
        note_of_key(entries[i].0) == Ok::<u8, KeyError>(note),
        forall|j: int|
            i < j < entries.len() ==> note_of_key(#[trigger] entries[j].0) != Ok::<u8, KeyError>(
                note,
            ),
    ensures
        bindings_of(entries).contains_key(note),
        bindings_of(entries)[note] == entries[i].1,
    decreases entries.len(),
{
    let last = entries.len() - 1;
    if i < last {
        let earlier = entries.drop_last();
        law_last_binding_wins(earlier, i, note);
    }
}

/// The bindings of a sound table are valid: no note above 127, no empty
/// action.
pub proof fn law_sound_table_binds_validly(entries: Seq<(Seq<char>, Seq<char>)>)
    requires
        first_fault(entries) is None,
    ensures
        valid_bindings(bindings_of(entries)),
    decreases entries.len(),
{
    if entries.len() > 0 {
        law_sound_table_binds_validly(entries.drop_last());
    }
}

/// A fault found among the first `n` entries is the fault of the whole table.
proof fn lemma_fault_stays(entries: Seq<(Seq<char>, Seq<char>)>, n: int)
    requires
        0 <= n <= entries.len(),
        first_fault(entries.take(n)) is Some,
    ensures
        first_fault(entries) == first_fault(entries.take(n)),
    decreases entries.len() - n,
{
    if n < entries.len() {
        let next = entries.take(n + 1);
        assert(next.drop_last() == entries.take(n));
        lemma_fault_stays(entries, n + 1);
    } else {
        assert(entries.take(n) == entries);
    }
}

} // verus!
