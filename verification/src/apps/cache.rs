//! A key-value cache: what it stores and what it answers.

use vstd::prelude::*;
use vstd::string::StringExecFns;
use crate::text::same_text;

verus! {

/// A request to the cache.
pub enum Command {
    /// Store `value` under `key`.
    Store { key: String, value: Vec<u8> },
    /// Look up what is stored under `key`.
    Fetch { key: String },
}

/// The answer of the cache.
#[derive(Debug)]
pub enum Reply {
    /// A short text.
    Simple(String),
    /// A value.
    Bulk(Vec<u8>),
    /// Nothing is stored under the key.
    Null,
}

/// The store: each key with the value last set for it.
pub struct Db {
    entries: Vec<(String, Vec<u8>)>,
}

/// The key of an entry.
pub open spec fn key_of(entry: (String, Vec<u8>)) -> Seq<char> {
    entry.0@
}

/// The map that a list of entries stands for: a later entry overrides an
/// earlier one with the same key.
pub open spec fn map_of(entries: Seq<(String, Vec<u8>)>) -> Map<Seq<char>, Seq<u8>>
    decreases entries.len(),
{
    if entries.len() == 0 {
        Map::empty()
    } else {
        map_of(entries.drop_last()).insert(entries.last().0@, entries.last().1@)
    }
}

/// No key stands twice in the list.
pub open spec fn distinct_keys(entries: Seq<(String, Vec<u8>)>) -> bool {
    forall|i: int, j: int|
        0 <= i < j < entries.len() ==> key_of(#[trigger] entries[i]) != key_of(
            #[trigger] entries[j],
        )
}

/// The map holds exactly the keys of the list, and where no key stands
/// twice, each with the value beside it.
pub proof fn lemma_map_of(entries: Seq<(String, Vec<u8>)>)
    ensures
        forall|k: Seq<char>| #[trigger]
            map_of(entries).contains_key(k) <==> exists|i: int|
                0 <= i < entries.len() && key_of(#[trigger] entries[i]) == k,
        distinct_keys(entries) ==> forall|i: int|
            0 <= i < entries.len() ==> map_of(entries)[key_of(#[trigger] entries[i])]
                == entries[i].1@,
    decreases entries.len(),
{
    if entries.len() > 0 {
        let front = entries.drop_last();
        lemma_map_of(front);
        assert forall|k: Seq<char>| #[trigger]
            map_of(entries).contains_key(k) implies exists|i: int|
            0 <= i < entries.len() && key_of(#[trigger] entries[i]) == k by {
            if k == entries.last().0@ {
                assert(key_of(entries[entries.len() - 1]) == k);
            } else {
                assert(map_of(front).contains_key(k));
                let i = choose|i: int| 0 <= i < front.len() && key_of(#[trigger] front[i]) == k;
                assert(key_of(entries[i]) == k);
            }
        }
        assert forall|k: Seq<char>|
            (exists|i: int|
                0 <= i < entries.len() && key_of(#[trigger] entries[i]) == k) implies #[trigger]
            map_of(entries).contains_key(k) by {
            let i = choose|i: int| 0 <= i < entries.len() && key_of(#[trigger] entries[i]) == k;
            if i < entries.len() - 1 {
                assert(front[i] == entries[i]);
                assert(key_of(front[i]) == k);
                assert(map_of(front).contains_key(k));
            } else {
                assert(entries[i] == entries.last());
                assert(k == entries.last().0@);
            }
        }
        if distinct_keys(entries) {
            assert forall|i: int, j: int| 0 <= i < j < front.len() implies key_of(
                #[trigger] front[i],
            ) != key_of(#[trigger] front[j]) by {
                assert(front[i] == entries[i] && front[j] == entries[j]);
            }
            assert forall|i: int| 0 <= i < entries.len() implies map_of(entries)[key_of(
                #[trigger] entries[i],
            )] == entries[i].1@ by {
                if i < entries.len() - 1 {
                    assert(front[i] == entries[i]);
                    assert(key_of(entries[i]) != key_of(entries[entries.len() - 1]));
                }
            }
        }
    }
}

impl View for Db {
    type V = Map<Seq<char>, Seq<u8>>;

    closed spec fn view(&self) -> Map<Seq<char>, Seq<u8>> {
        map_of(self.entries@)
    }
}

impl Db {
    /// The invariant of the store: no key is kept twice.
    pub closed spec fn wf(&self) -> bool {
        distinct_keys(self.entries@)
    }

    /// An empty store.
    pub fn new() -> (r: Db)
        ensures
            r.wf(),
            r@ == Map::<Seq<char>, Seq<u8>>::empty(),
    {
        Db { entries: Vec::new() }
    }

    /// Where `key` stands among the entries, if it does.
    fn find(&self, key: &str) -> (r: Option<usize>)
        ensures
            match r {
                Some(j) => j < self.entries@.len() && key_of(self.entries@[j as int]) == key@,
                None => forall|i: int|
                    0 <= i < self.entries@.len() ==> key_of(#[trigger] self.entries@[i]) != key@,
            },
    {
        let mut j: usize = 0;
        while j < self.entries.len()
            invariant
                j <= self.entries@.len(),
                forall|i: int| 0 <= i < j ==> key_of(#[trigger] self.entries@[i]) != key@,
            decreases self.entries@.len() - j,
        {
            if same_text(self.entries[j].0.as_str(), key) {
                return Some(j);
            }
            j = j + 1;
        }
        None
    }

    /// Stores `value` under `key`, in place of what was stored under it.
    pub fn set(&mut self, key: String, value: Vec<u8>)
        requires
            old(self).wf(),
        ensures
            final(self).wf(),
            final(self)@ == old(self)@.insert(key@, value@),
    {
        let ghost before = self.entries@;
        proof {
            lemma_map_of(before);
        }
        match self.find(key.as_str()) {
            Some(j) => {
                self.entries.set(j, (key, value));
                proof {
                    let after = self.entries@;
                    assert forall|a: int, b: int| 0 <= a < b < after.len() implies key_of(
                        #[trigger] after[a],
                    ) != key_of(#[trigger] after[b]) by {
                        assert(key_of(after[a]) == key_of(before[a]));
                        assert(key_of(after[b]) == key_of(before[b]));
                    }
                    lemma_map_of(after);
                    assert forall|k: Seq<char>| #[trigger]
                        map_of(after).contains_key(k) <==> map_of(before).insert(
                            key@,
                            value@,
                        ).contains_key(k) by {
                        if map_of(after).contains_key(k) {
                            let i = choose|i: int|
                                0 <= i < after.len() && key_of(#[trigger] after[i]) == k;
                            assert(key_of(before[i]) == k);
                        }
                        if map_of(before).contains_key(k) {
                            let i = choose|i: int|
                                0 <= i < before.len() && key_of(#[trigger] before[i]) == k;
                            assert(key_of(after[i]) == k);
                        }
                        if k == key@ {
                            assert(key_of(after[j as int]) == k);
                        }
                    }
                    assert forall|k: Seq<char>| #[trigger]
                        map_of(after).contains_key(k) implies map_of(after)[k] == map_of(
                        before,
                    ).insert(key@, value@)[k] by {
                        let i = choose|i: int|
                            0 <= i < after.len() && key_of(#[trigger] after[i]) == k;
                        assert(map_of(after)[key_of(after[i])] == after[i].1@);
                        if i != j {
                            assert(after[i] == before[i]);
                            assert(map_of(before)[key_of(before[i])] == before[i].1@);
                            assert(key_of(before[i]) != key_of(before[j as int]));
                        }
                    }
                    assert(map_of(after) =~= map_of(before).insert(key@, value@));
                }
            },
            None => {
                self.entries.push((key, value));
                proof {
                    let after = self.entries@;
                    assert(after.drop_last() =~= before);
                    assert forall|a: int, b: int| 0 <= a < b < after.len() implies key_of(
                        #[trigger] after[a],
                    ) != key_of(#[trigger] after[b]) by {
                        assert(after[a] == before[a]);
                        if b < before.len() {
                            assert(after[b] == before[b]);
                        }
                    }
                }
            },
        }
    }

    /// What is stored under `key`, if anything.
    pub fn get(&self, key: &str) -> (r: Option<&Vec<u8>>)
        requires
            self.wf(),
        ensures
            match r {
                Some(value) => self@.contains_key(key@) && self@[key@] == value@,
                None => !self@.contains_key(key@),
            },
    {
        proof {
            lemma_map_of(self.entries@);
        }
        match self.find(key) {
            Some(j) => {
                assert(map_of(self.entries@)[key_of(self.entries@[j as int])]
                    == self.entries@[j as int].1@);
                Some(&self.entries[j].1)
            },
            None => None,
        }
    }

    /// How many keys are stored.
    pub fn len(&self) -> (r: usize)
        ensures
            r == self.spec_len(),
    {
        self.entries.len()
    }

    /// How many keys are stored.
    pub closed spec fn spec_len(&self) -> nat {
        self.entries@.len()
    }
}

/// A copy of `bytes`.
pub fn copy_bytes(bytes: &Vec<u8>) -> (r: Vec<u8>)
    ensures
        r@ == bytes@,
{
    let mut copy: Vec<u8> = Vec::new();
    let mut i: usize = 0;
    while i < bytes.len()
        invariant
            i <= bytes@.len(),
            copy@ == bytes@.take(i as int),
        decreases bytes@.len() - i,
    {
        copy.push(bytes[i]);
        assert(bytes@.take(i + 1) =~= bytes@.take(i as int).push(bytes@[i as int]));
        i = i + 1;
    }
    assert(bytes@.take(bytes@.len() as int) =~= bytes@);
    copy
}

/// Carries out one command and answers it: a value is stored and
/// acknowledged with `OK`; a lookup is answered with the value, or with
/// `Null` where the key is unknown, and leaves the store as it was.
pub fn respond(db: &mut Db, command: Command) -> (r: Reply)
    requires
        old(db).wf(),
    ensures
        final(db).wf(),
        match command {
            Command::Store { key, value } => {
                &&& final(db)@ == old(db)@.insert(key@, value@)
                &&& r matches Reply::Simple(text) && text@ == "OK"@
            },
            Command::Fetch { key } => {
                &&& final(db)@ == old(db)@
                &&& if old(db)@.contains_key(key@) {
                    r matches Reply::Bulk(value) && value@ == old(db)@[key@]
                } else {
                    r is Null
                }
            },
        },
{
    match command {
        Command::Store { key, value } => {
            db.set(key, value);
            Reply::Simple(String::from_str("OK"))
        },
        Command::Fetch { key } => {
            match db.get(key.as_str()) {
                Some(value) => Reply::Bulk(copy_bytes(value)),
                None => Reply::Null,
            }
        },
    }
}

} // verus!
