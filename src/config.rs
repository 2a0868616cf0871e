//! The configuration entity: a name, a mapping of string keys to string
//! values, and a bound on the number of entries that validation enforces.

use vstd::prelude::*;
use crate::decimal::{decimal, push_decimal};
use crate::validate::Validate;

verus! {

/// The bound on the number of entries of a configuration built by `new`.
pub const DEFAULT_MAX_ENTRIES: usize = 100;

/// The message reported for a configuration without a name.
pub open spec fn empty_name_message() -> Seq<char> {
    "Name cannot be empty"@
}

/// The message reported for a configuration holding `count` entries when at
/// most `bound` are allowed.
pub open spec fn capacity_message(count: nat, bound: nat) -> Seq<char> {
    "Too many values: "@ + decimal(count) + " > "@ + decimal(bound)
}

/// Why a configuration fails validation.
#[derive(Debug, Clone, Copy, PartialEq, Eq, Structural)]
pub enum ConfigError {
    /// The name is the empty string.
    EmptyName,
    /// The mapping holds `count` entries, more than `bound`.
    CapacityExceeded { count: usize, bound: usize },
}

impl ConfigError {
    /// The human-readable rendering of the error.
    pub open spec fn message_spec(self) -> Seq<char> {
        match self {
            ConfigError::EmptyName => empty_name_message(),
            ConfigError::CapacityExceeded { count, bound } => capacity_message(
                count as nat,
                bound as nat,
            ),
        }
    }

    /// Renders the error as a message.
    pub fn message(&self) -> (r: String)
        ensures
            r@ == self.message_spec(),
    {
        match self {
            ConfigError::EmptyName => String::from_str("Name cannot be empty"),
            ConfigError::CapacityExceeded { count, bound } => {
                let mut s = String::from_str("Too many values: ");
                push_decimal(&mut s, *count);
                s.append(" > ");
                push_decimal(&mut s, *bound);
                s
            },
        }
    }
}

/// A named configuration mapping string keys to string values.
#[derive(Clone)]
pub struct Config {
    name: String,
    values: Vec<(String, String)>,
    max_size: usize,
    entries: Ghost<Map<Seq<char>, Seq<char>>>,
}

impl View for Config {
    type V = Map<Seq<char>, Seq<char>>;

    /// The key-value mapping held by the configuration.
    closed spec fn view(&self) -> Map<Seq<char>, Seq<char>> {
        self.entries@
    }
}

impl Config {
    /// The configuration's name.
    pub closed spec fn name_view(&self) -> Seq<char> {
        self.name@
    }

    /// The bound on the number of entries, fixed at construction.
    pub closed spec fn bound(&self) -> nat {
        self.max_size as nat
    }

    /// The number of entries stored.
    pub closed spec fn size(&self) -> nat {
        self.values@.len()
    }

    /// The stored pairs hold distinct keys and are exactly the mapping.
    pub closed spec fn wf(&self) -> bool {
        &&& self.entries@.dom().finite()
        &&& self.entries@.len() == self.values@.len()
        &&& forall|i: int|
            0 <= i < self.values@.len() ==> {
                &&& self.entries@.contains_key(#[trigger] self.values@[i].0@)
                &&& self.entries@[self.values@[i].0@] == self.values@[i].1@
            }
        &&& forall|i: int, j: int|
            0 <= i < j < self.values@.len() ==> #[trigger] self.values@[i].0@
                != #[trigger] self.values@[j].0@
        &&& forall|k: Seq<char>|
            #[trigger] self.entries@.contains_key(k) ==> exists|i: int|
                0 <= i < self.values@.len() && #[trigger] self.values@[i].0@ == k
    }

    /// The number of entries of a well-formed configuration is the size of
    /// its mapping.
    pub proof fn lemma_size(&self)
        requires
            self.wf(),
        ensures
            self.size() == self@.len(),
    {
    }

    /// Creates a configuration with the given name, no entries and the
    /// bound `DEFAULT_MAX_ENTRIES`.
    pub fn new(name: &str) -> (c: Config)
        ensures
            c.wf(),
            c.name_view() == name@,
            c@ == Map::<Seq<char>, Seq<char>>::empty(),
            c.bound() == DEFAULT_MAX_ENTRIES,
    {
        Config::with_max_entries(name, DEFAULT_MAX_ENTRIES)
    }

    /// Creates a configuration with the given name, no entries and the given
    /// bound on the number of entries.
    pub fn with_max_entries(name: &str, max_entries: usize) -> (c: Config)
        ensures
            c.wf(),
            c.name_view() == name@,
            c@ == Map::<Seq<char>, Seq<char>>::empty(),
            c.bound() == max_entries,
    {
        Config {
            name: String::from_str(name),
            values: Vec::new(),
            max_size: max_entries,
            entries: Ghost(Map::empty()),
        }
    }

    /// The position of the pair whose key is `key`, if any.
    fn position(&self, key: &String) -> (r: Option<usize>)
        requires
            self.wf(),
        ensures
            match r {
                Some(i) => i < self.values@.len() && self.values@[i as int].0@ == key@,
                None => !self@.contains_key(key@),
            },
    {
        let mut i: usize = 0;
        while i < self.values.len()
            invariant
                i <= self.values@.len(),
                forall|j: int| 0 <= j < i ==> self.values@[j].0@ != key@,
            decreases self.values@.len() - i,
        {
            if self.values[i].0 == *key {
                return Some(i);
            }
            i = i + 1;
        }
        None
    }
    /// Associates `value` with `key`, replacing any earlier value, and
    /// returns the value that `key` had before, if any. The bound is not
    /// checked here: only validation reports an overfull mapping.
    pub fn set(&mut self, key: &str, value: &str) -> (r: Option<String>)
        requires
            old(self).wf(),
        ensures
            final(self).wf(),
            final(self)@ == old(self)@.insert(key@, value@),
            final(self).name_view() == old(self).name_view(),
            final(self).bound() == old(self).bound(),
            match r {
                Some(prev) => old(self)@.contains_key(key@) && prev@ == old(self)@[key@],
                None => !old(self)@.contains_key(key@),
            },
    {
        let k = String::from_str(key);
        let v = String::from_str(value);
        match self.position(&k) {
            Some(i) => {
                let prev = self.values[i].1.clone();
                self.values.set(i, (k, v));
                proof {
                    let m = old(self).entries@;
                    assert(m.contains_key(key@));
                    self.entries@ = m.insert(key@, value@);
                    assert(self.entries@.dom() =~= m.dom());
                    assert forall|j: int| 0 <= j < self.values@.len() implies {
                        &&& self.entries@.contains_key(#[trigger] self.values@[j].0@)
                        &&& self.entries@[self.values@[j].0@] == self.values@[j].1@
                    } by {
                        if j != i {
                            assert(old(self).values@[j].0@ != key@);
                        }
                    }
                    assert forall|kk: Seq<char>| #[trigger]
                        self.entries@.contains_key(kk) implies exists|j: int|
                        0 <= j < self.values@.len() && #[trigger] self.values@[j].0@ == kk by {
                        let j = choose|j: int|
                            0 <= j < old(self).values@.len() && #[trigger] old(
                                self,
                            ).values@[j].0@ == kk;
                        assert(self.values@[j].0@ == kk);
                    }
                }
                Some(prev)
            },
            None => {
                self.values.push((k, v));
                proof {
                    let m = old(self).entries@;
                    let n = old(self).values@.len() as int;
                    self.entries@ = m.insert(key@, value@);
                    assert(self.entries@.dom() =~= m.dom().insert(key@));
                    assert(self.values@[n].0@ == key@);
                    assert forall|j: int| 0 <= j < self.values@.len() implies {
                        &&& self.entries@.contains_key(#[trigger] self.values@[j].0@)
                        &&& self.entries@[self.values@[j].0@] == self.values@[j].1@
                    } by {
                        if j != n {
                            assert(self.values@[j] == old(self).values@[j]);
                            assert(m.contains_key(old(self).values@[j].0@));
                        }
                    }
                    assert forall|a: int, b: int|
                        0 <= a < b < self.values@.len() implies #[trigger] self.values@[a].0@
                        != #[trigger] self.values@[b].0@ by {
                        if b == n {
                            assert(m.contains_key(old(self).values@[a].0@));
                        }
                    }
                    assert forall|kk: Seq<char>| #[trigger]
                        self.entries@.contains_key(kk) implies exists|j: int|
                        0 <= j < self.values@.len() && #[trigger] self.values@[j].0@ == kk by {
                        if kk != key@ {
                            let j = choose|j: int|
                                0 <= j < old(self).values@.len() && #[trigger] old(
                                    self,
                                ).values@[j].0@ == kk;
                            assert(self.values@[j].0@ == kk);
                        }
                    }
                }
                None
            },
        }
    }

    /// The value associated with `key`, if any.
    pub fn get(&self, key: &str) -> (r: Option<&String>)
        requires
            self.wf(),
        ensures
            match r {
                Some(v) => self@.contains_key(key@) && v@ == self@[key@],
                None => !self@.contains_key(key@),
            },
    {
        let k = String::from_str(key);
        match self.position(&k) {
            Some(i) => Some(&self.values[i].1),
            None => None,
        }
    }
    /// Checks the configuration, reporting the first rule it breaks: the
    /// name is checked first, then the number of entries against the bound.
    pub fn check(&self) -> (r: Result<(), ConfigError>)
        ensures
            match r {
                Ok(()) => self.name_view().len() > 0 && self.size() <= self.bound(),
                Err(ConfigError::EmptyName) => self.name_view().len() == 0,
                Err(ConfigError::CapacityExceeded { count, bound }) => {
                    &&& self.name_view().len() > 0
                    &&& self.size() > self.bound()
                    &&& count == self.size()
                    &&& bound == self.bound()
                },
            },
    {
        if self.name.as_str().is_empty() {
            return Err(ConfigError::EmptyName);
        }
        let count = self.values.len();
        if count > self.max_size {
            return Err(ConfigError::CapacityExceeded { count, bound: self.max_size });
        }
        Ok(())
    }

    /// Extension point for further processing of a configuration; it does
    /// no work and always succeeds.
    pub fn process_advanced(&self) -> (r: Result<(), ConfigError>)
        ensures
            r == Ok::<(), ConfigError>(()),
    {
        Ok(())
    }

    /// The configuration's name.
    pub fn name(&self) -> (r: &String)
        ensures
            r@ == self.name_view(),
    {
        &self.name
    }

    /// The number of entries.
    pub fn len(&self) -> (r: usize)
        requires
            self.wf(),
        ensures
            r == self@.len(),
    {
        self.values.len()
    }

    /// The bound on the number of entries.
    pub fn max_entries(&self) -> (r: usize)
        ensures
            r == self.bound(),
    {
        self.max_size
    }

    /// The text `Config(<name>, <count> values)`.
    pub open spec fn display_spec(&self) -> Seq<char> {
        "Config("@ + self.name_view() + ", "@ + decimal(self.size()) + " values)"@
    }

    /// Renders the configuration as `Config(<name>, <count> values)`.
    pub fn display(&self) -> (r: String)
        ensures
            r@ == self.display_spec(),
    {
        let mut s = String::from_str("Config(");
        s.append(self.name.as_str());
        s.append(", ");
        push_decimal(&mut s, self.values.len());
        s.append(" values)");
        s
    }
}

impl Default for Config {
    /// An unnamed configuration with no entries and a bound of zero.
    fn default() -> (c: Config)
        ensures
            c.wf(),
            c.name_view().len() == 0,
            c@ == Map::<Seq<char>, Seq<char>>::empty(),
            c.bound() == 0,
    {
        proof {
            reveal_strlit("");
        }
        Config::with_max_entries("", 0)
    }
}

impl Validate for Config {
    open spec fn validation_outcome(&self) -> Result<(), Seq<char>> {
        if self.name_view().len() == 0 {
            Err(empty_name_message())
        } else if self.size() > self.bound() {
            Err(capacity_message(self.size(), self.bound()))
        } else {
            Ok(())
        }
    }

    fn validate(&self) -> (r: Result<(), String>) {
        match self.check() {
            Ok(()) => Ok(()),
            Err(e) => Err(e.message()),
        }
    }
}

/// The mapping reached from `m` by associating each key of `writes` with its
/// value, in order.
pub open spec fn apply_writes(
    m: Map<Seq<char>, Seq<char>>,
    writes: Seq<(Seq<char>, Seq<char>)>,
) -> Map<Seq<char>, Seq<char>>
    decreases writes.len(),
{
    if writes.len() == 0 {
        m
    } else {
        apply_writes(m, writes.drop_last()).insert(writes.last().0, writes.last().1)
    }
}

/// The value of the last write to `k` in `writes`, if any.
pub open spec fn last_write(writes: Seq<(Seq<char>, Seq<char>)>, k: Seq<char>) -> Option<
    Seq<char>,
>
    decreases writes.len(),
{
    if writes.len() == 0 {
        None
    } else if writes.last().0 == k {
        Some(writes.last().1)
    } else {
        last_write(writes.drop_last(), k)
    }
}

/// Last write wins: after a series of `set` calls, whose effect on the
/// mapping is `apply_writes`, looking up a key gives the value of the last
/// write to it, and the earlier value where it was never written.
pub proof fn lemma_last_write_wins(
    m: Map<Seq<char>, Seq<char>>,
    writes: Seq<(Seq<char>, Seq<char>)>,
    k: Seq<char>,
)
    ensures
        match last_write(writes, k) {
            Some(v) => apply_writes(m, writes).contains_key(k) && apply_writes(m, writes)[k] == v,
            None => apply_writes(m, writes).contains_key(k) == m.contains_key(k) && (m.contains_key(
                k,
            ) ==> apply_writes(m, writes)[k] == m[k]),
        },
    decreases writes.len(),
{
    if writes.len() > 0 {
        lemma_last_write_wins(m, writes.drop_last(), k);
    }
}

/// Whether `t` occurs in `s` as a contiguous part.
pub open spec fn contains_seq(s: Seq<char>, t: Seq<char>) -> bool {
    exists|i: int| 0 <= i && i + t.len() <= s.len() && #[trigger] s.subrange(i, i + t.len()) == t
}

/// A configuration without a name fails validation with the empty-name
/// message, whatever its entries.
pub proof fn lemma_empty_name_fails(c: &Config)
    requires
        c.name_view().len() == 0,
    ensures
        c.validation_outcome() == Err::<(), Seq<char>>(empty_name_message()),
{
}

/// A well-formed configuration with a name and at most as many entries as
/// its bound passes validation.
pub proof fn lemma_within_bound_passes(c: &Config)
    requires
        c.wf(),
        c.name_view().len() > 0,
        c@.len() <= c.bound(),
    ensures
        c.validation_outcome() is Ok,
{
}

/// A well-formed configuration with a name and more entries than its bound
/// fails validation with the capacity message, which holds both the number
/// of entries and the bound.
pub proof fn lemma_over_bound_fails(c: &Config)
    requires
        c.wf(),
        c.name_view().len() > 0,
        c@.len() > c.bound(),
    ensures
        c.validation_outcome() == Err::<(), Seq<char>>(capacity_message(c@.len(), c.bound())),
        contains_seq(capacity_message(c@.len(), c.bound()), decimal(c@.len())),
        contains_seq(capacity_message(c@.len(), c.bound()), decimal(c.bound())),
{
    let a = decimal(c@.len());
    let b = decimal(c.bound());
    let p = "Too many values: "@;
    let q = " > "@;
    let msg = capacity_message(c@.len(), c.bound());
    assert(msg =~= p + a + q + b);
    let i = p.len() as int;
    let j = (p.len() + a.len() + q.len()) as int;
    assert(msg.subrange(i, i + a.len()) =~= a);
    assert(msg.subrange(j, j + b.len()) =~= b);
}

} // verus!
