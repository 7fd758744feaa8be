//! Parsing of unit properties reported by the service manager.
//!
//! The manager reports a unit's properties as repeated `KEY=VALUE` lines.
//! The parser here works on that text; running the manager's query command
//! is the hosting application's step. Every line, trimmed of surrounding
//! white space, must carry a `=` delimiter; later duplicate keys overwrite
//! earlier ones, and the `ActiveState` property must be present with one
//! of the six recognized state words.

use vstd::prelude::*;

use crate::text::find_char;
use crate::text::trim_spec;
use crate::text::trim_str;
use crate::text::first_index_of;
use crate::text::split_chars;
use crate::text::split_str;
use crate::text::str_eq;
use crate::text::views_of;

verus! {

/// The active state of a unit.
#[derive(Debug, Clone, Copy)]
pub enum ActiveState {
    /// The unit is active and responding.
    Active,
    /// The manager is reloading the unit.
    Reloading,
    /// The unit is inactive.
    Inactive,
    /// The unit has failed.
    Failed,
    /// The unit has started but is not yet active.
    Activating,
    /// The unit has stopped but is not yet inactive.
    Deactivating,
}

/// The state a state word names, if it is one of the six recognized,
/// case-sensitive words.
pub open spec fn state_of(s: Seq<char>) -> Option<ActiveState> {
    if s == "active"@ {
        Some(ActiveState::Active)
    } else if s == "reloading"@ {
        Some(ActiveState::Reloading)
    } else if s == "inactive"@ {
        Some(ActiveState::Inactive)
    } else if s == "failed"@ {
        Some(ActiveState::Failed)
    } else if s == "activating"@ {
        Some(ActiveState::Activating)
    } else if s == "deactivating"@ {
        Some(ActiveState::Deactivating)
    } else {
        None
    }
}

/// Error for a state word that is not one of the recognized six; holds
/// the rejected word.
#[derive(Debug)]
pub struct StateParseError(pub String);

impl ActiveState {
    /// Parse a state word, exactly and case-sensitively.
    pub fn parse(s: &str) -> (r: Result<ActiveState, StateParseError>)
        ensures
            match r {
                Ok(st) => state_of(s@) == Some(st),
                Err(e) => state_of(s@) is None && e.0@ == s@,
            },
    {
        if str_eq(s, "active") {
            Ok(ActiveState::Active)
        } else if str_eq(s, "reloading") {
            Ok(ActiveState::Reloading)
        } else if str_eq(s, "inactive") {
            Ok(ActiveState::Inactive)
        } else if str_eq(s, "failed") {
            Ok(ActiveState::Failed)
        } else if str_eq(s, "activating") {
            Ok(ActiveState::Activating)
        } else if str_eq(s, "deactivating") {
            Ok(ActiveState::Deactivating)
        } else {
            Err(StateParseError(String::from_str(s)))
        }
    }
}

/// Errors from parsing a unit's reported properties.
#[derive(Debug)]
pub enum PropertyParseError {
    /// The `ActiveState` value is not a recognized state word.
    State(StateParseError),
    /// A line is missing the `=` delimiter; holds that line.
    MissingDelimeter(String),
    /// A required property is absent.
    MissingProperty(&'static str),
    /// The query command itself failed, described as text.
    CommandError(String),
}

/// One parsed `KEY=VALUE` pair.
#[derive(Debug)]
struct Property {
    key: String,
    value: String,
}

/// The mapping a series of key/value pairs builds up, later pairs
/// overwriting earlier ones.
spec fn map_of(entries: Seq<Property>) -> Map<Seq<char>, Seq<char>>
    decreases entries.len(),
{
    if entries.len() == 0 {
        Map::empty()
    } else {
        map_of(entries.drop_last()).insert(entries.last().key@, entries.last().value@)
    }
}

/// A line without its one trailing carriage return, if it has one.
pub open spec fn strip_cr(l: Seq<char>) -> Seq<char> {
    if l.len() > 0 && l.last() == '\r' {
        l.drop_last()
    } else {
        l
    }
}

/// The lines of a text, as `str::lines` reads them: split at line feeds,
/// a final line ending optional, and a carriage return removed only where
/// a line feed followed it (a final line without line ending keeps its
/// trailing carriage return).
pub open spec fn spec_lines(s: Seq<char>) -> Seq<Seq<char>> {
    let raw = split_chars(s, '\n');
    let kept = if raw.len() > 0 && raw.last().len() == 0 {
        raw.drop_last()
    } else {
        raw
    };
    Seq::new(
        kept.len(),
        |i: int|
            if i < raw.len() - 1 {
                strip_cr(kept[i])
            } else {
                kept[i]
            },
    )
}

/// The key and value of a property line: the line is first trimmed of
/// surrounding white space, then read as the text before its first `=`
/// and the text after it; nothing where the trimmed line has no `=`.
pub open spec fn parse_line(l: Seq<char>) -> Option<(Seq<char>, Seq<char>)> {
    let t = trim_spec(l);
    let i = first_index_of(t, '=');
    if i < t.len() {
        Some((t.take(i), t.skip(i + 1)))
    } else {
        None
    }
}

/// Whether every line carries its `=` delimiter.
pub open spec fn lines_ok(lines: Seq<Seq<char>>) -> bool {
    forall|i: int| 0 <= i < lines.len() ==> (#[trigger] parse_line(lines[i])) is Some
}

/// The property mapping a series of lines builds up, in order, later
/// duplicate keys overwriting earlier ones.
pub open spec fn props_of(lines: Seq<Seq<char>>) -> Map<Seq<char>, Seq<char>>
    decreases lines.len(),
{
    if lines.len() == 0 {
        Map::empty()
    } else {
        match parse_line(lines.last()) {
            Some(kv) => props_of(lines.drop_last()).insert(kv.0, kv.1),
            None => props_of(lines.drop_last()),
        }
    }
}

/// Split a text into its lines, as `str::lines` does.
fn str_lines(s: &str) -> (r: Vec<String>)
    ensures
        views_of(r@) == spec_lines(s@),
{
    let mut parts = split_str(s, '\n');
    proof {
        assert(views_of(parts@).len() >= 1) by {
            crate::text::lemma_split_chars_len(s@, '\n');
        }
        assert(parts@.len() == views_of(parts@).len());
        assert(views_of(parts@).last() == parts@[parts@.len() - 1]@);
    }
    let raw_len = parts.len();
    let ghost rawn = split_chars(s@, '\n').len();
    if parts[raw_len - 1].as_str().unicode_len() == 0 {
        let ghost before = parts@;
        let _ = parts.pop();
        proof {
            assert(views_of(parts@) =~= views_of(before).drop_last());
        }
    }
    let ghost kept = views_of(parts@);
    proof {
        assert(rawn == raw_len);
        assert(kept == if split_chars(s@, '\n').last().len() == 0 {
            split_chars(s@, '\n').drop_last()
        } else {
            split_chars(s@, '\n')
        });
    }
    let mut out: Vec<String> = Vec::new();
    let mut i: usize = 0;
    let n = parts.len();
    while i < n
        invariant
            i <= n,
            n == parts@.len(),
            rawn == raw_len,
            views_of(parts@) == kept,
            out@.len() == i,
            forall|j: int|
                0 <= j < i ==> views_of(out@)[j] == (if j < rawn - 1 {
                    strip_cr(kept[j])
                } else {
                    kept[j]
                }),
        decreases n - i,
    {
        let p = &parts[i];
        proof {
            assert(views_of(parts@)[i as int] == p@);
        }
        let ghost out0 = out@;
        let m = p.as_str().unicode_len();
        if i + 1 < raw_len && m > 0 && p.as_str().get_char(m - 1) == '\r' {
            let stripped = String::from_str(p.as_str().substring_char(0, m - 1));
            proof {
                assert(p@.drop_last() =~= p@.subrange(0, m - 1));
                assert(stripped@ == strip_cr(kept[i as int]));
            }
            out.push(stripped);
            proof {
                assert(out@[i as int]@ == strip_cr(kept[i as int]));
            }
        } else {
            let kpt = p.clone();
            out.push(kpt);
            proof {
                if i + 1 < raw_len {
                    assert(out@[i as int]@ == strip_cr(kept[i as int]));
                } else {
                    assert(out@[i as int]@ == kept[i as int]);
                }
            }
        }
        proof {
            assert forall|j: int|
                0 <= j < i + 1 implies views_of(out@)[j] == (if j < rawn - 1 {
                strip_cr(kept[j])
            } else {
                kept[j]
            }) by {
                assert(views_of(out@)[j] == out@[j]@);
                if j < i {
                    assert(out@[j] == out0[j]);
                    assert(views_of(out0)[j] == out0[j]@);
                }
            }
        }
        i += 1;
    }
    proof {
        assert(views_of(out@) =~= spec_lines(s@));
    }
    out
}

/// The last value a name was given among the pairs, searched from the
/// most recent pair backwards.
fn lookup<'a>(entries: &'a Vec<Property>, name: &str) -> (r: Option<&'a String>)
    ensures
        match r {
            Some(v) => map_of(entries@).contains_key(name@) && v@ == map_of(entries@)[name@],
            None => !map_of(entries@).contains_key(name@),
        },
{
    let mut i = entries.len();
    proof {
        assert(entries@.take(entries@.len() as int) =~= entries@);
    }
    while i > 0
        invariant
            i <= entries@.len(),
            map_of(entries@).contains_key(name@) == map_of(entries@.take(i as int)).contains_key(
                name@,
            ),
            map_of(entries@).contains_key(name@) ==> map_of(entries@)[name@] == map_of(
                entries@.take(i as int),
            )[name@],
        decreases i,
    {
        i = i - 1;
        proof {
            assert(entries@.take(i + 1).drop_last() =~= entries@.take(i as int));
            assert(entries@.take(i + 1).last() == entries@[i as int]);
        }
        if str_eq(entries[i].key.as_str(), name) {
            return Some(&entries[i].value);
        }
    }
    proof {
        assert(entries@.take(0) =~= Seq::<Property>::empty());
    }
    None
}

/// A unit's reported properties: the key/value mapping and the parsed
/// `ActiveState`, which construction guarantees present and recognized.
#[derive(Debug)]
pub struct SystemDProperties {
    properties: Vec<Property>,
    active: ActiveState,
}

impl View for SystemDProperties {
    type V = Map<Seq<char>, Seq<char>>;

    closed spec fn view(&self) -> Map<Seq<char>, Seq<char>> {
        map_of(self.properties@)
    }
}

impl SystemDProperties {
    /// The parsed active state, as recorded at construction.
    pub closed spec fn spec_state(&self) -> ActiveState {
        self.active
    }

    /// The unit's active state.
    pub fn state(&self) -> (r: ActiveState)
        ensures
            r == self.spec_state(),
    {
        self.active
    }

    /// The value of a property, if the unit reported one under this name.
    pub fn property(&self, name: &str) -> (r: Option<&str>)
        ensures
            match r {
                Some(v) => self@.contains_key(name@) && v@ == self@[name@],
                None => !self@.contains_key(name@),
            },
    {
        match lookup(&self.properties, name) {
            Some(v) => Some(v.as_str()),
            None => None,
        }
    }

    /// Parse a unit's reported properties from `KEY=VALUE` lines. Each
    /// line is trimmed of surrounding white space before it is split at
    /// its first `=`.
    ///
    /// The first line without a `=` fails the parse whole, reporting the
    /// untrimmed line; with all lines well-formed, the `ActiveState`
    /// property must be present and hold a recognized state word. Nothing
    /// is returned partially.
    pub fn parse(s: &str) -> (r: Result<SystemDProperties, PropertyParseError>)
        ensures
            ({
                let lines = spec_lines(s@);
                match r {
                    Ok(p) => {
                        &&& lines_ok(lines)
                        &&& p@ == props_of(lines)
                        &&& p@.contains_key("ActiveState"@)
                        &&& state_of(p@["ActiveState"@]) == Some(p.spec_state())
                    },
                    Err(PropertyParseError::MissingDelimeter(l)) => exists|i: int|
                        {
                            &&& 0 <= i < lines.len()
                            &&& parse_line(#[trigger] lines[i]) is None
                            &&& l@ == lines[i]
                            &&& forall|j: int| 0 <= j < i ==> parse_line(#[trigger] lines[j]) is Some
                        },
                    Err(PropertyParseError::MissingProperty(n)) => {
                        &&& lines_ok(lines)
                        &&& n@ == "ActiveState"@
                        &&& !props_of(lines).contains_key("ActiveState"@)
                    },
                    Err(PropertyParseError::State(e)) => {
                        &&& lines_ok(lines)
                        &&& props_of(lines).contains_key("ActiveState"@)
                        &&& e.0@ == props_of(lines)["ActiveState"@]
                        &&& state_of(props_of(lines)["ActiveState"@]) is None
                    },
                    Err(PropertyParseError::CommandError(_)) => false,
                }
            }),
    {
        let lines = str_lines(s);
        let ghost lv = spec_lines(s@);
        let mut entries: Vec<Property> = Vec::new();
        let mut i: usize = 0;
        let n = lines.len();
        proof {
            assert(lv.take(0) =~= Seq::<Seq<char>>::empty());
        }
        while i < n
            invariant
                i <= n,
                n == lines@.len(),
                lv == spec_lines(s@),
                views_of(lines@) == lv,
                forall|j: int| 0 <= j < i ==> parse_line(#[trigger] lv[j]) is Some,
                map_of(entries@) == props_of(lv.take(i as int)),
            decreases n - i,
        {
            let line = &lines[i];
            proof {
                assert(views_of(lines@)[i as int] == line@);
            }
            let trimmed = trim_str(line.as_str());
            let tlen = trimmed.unicode_len();
            let ghost entries0 = entries@;
            match find_char(trimmed, '=') {
                Some(pos) => {
                    let key = String::from_str(trimmed.substring_char(0, pos));
                    let value = String::from_str(trimmed.substring_char(pos + 1, tlen));
                    entries.push(Property { key, value });
                    proof {
                        assert(entries@.drop_last() =~= entries0);
                        assert(lv.take(i + 1).drop_last() =~= lv.take(i as int));
                        assert(lv.take(i + 1).last() == lv[i as int]);
                        assert(parse_line(lv[i as int]) is Some);
                        let kv = parse_line(lv[i as int])->Some_0;
                        assert(kv.0 == trimmed@.take(pos as int));
                        assert(kv.1 == trimmed@.skip(pos + 1));
                    }
                },
                None => {
                    proof {
                        assert(views_of(lines@).len() == lines@.len());
                        assert(parse_line(lv[i as int]) is None);
                        assert(exists|k: int|
                            {
                                &&& 0 <= k < spec_lines(s@).len()
                                &&& parse_line(#[trigger] spec_lines(s@)[k]) is None
                                &&& line@ == spec_lines(s@)[k]
                                &&& forall|j: int|
                                    0 <= j < k ==> parse_line(#[trigger] spec_lines(s@)[j]) is Some
                            }) by {
                            assert({
                                &&& 0 <= (i as int) < spec_lines(s@).len()
                                &&& parse_line(spec_lines(s@)[i as int]) is None
                                &&& line@ == spec_lines(s@)[i as int]
                                &&& forall|j: int|
                                    0 <= j < i as int ==> parse_line(
                                        #[trigger] spec_lines(s@)[j],
                                    ) is Some
                            });
                        }
                    }
                    return Err(PropertyParseError::MissingDelimeter(line.clone()));
                },
            }
            i += 1;
        }
        proof {
            assert(lv.take(n as int) =~= lv);
        }
        let state_word = match lookup(&entries, "ActiveState") {
            Some(v) => v.as_str(),
            None => {
                return Err(PropertyParseError::MissingProperty("ActiveState"));
            },
        };
        match ActiveState::parse(state_word) {
            Ok(st) => Ok(SystemDProperties { properties: entries, active: st }),
            Err(e) => Err(PropertyParseError::State(e)),
        }
    }
}

} // verus!
