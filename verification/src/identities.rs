//! Session-only named identities for the playground.
use vstd::prelude::*;
use vstd::string::*;
use vstd::utf8::*;

use rand::Rng;
use rand::rngs::OsRng;
use rand::seq::SliceRandom;

use crate::highlight::is_ascii_alnum;
use crate::keys::{generate_keypair, is_hex_key_pair, is_supported_algorithm};
use crate::ops::{ED25519_NAME, P256_NAME};
use crate::text::{chars_of, owned, push_char, push_str, str_eq, trim, trim_chars};

verus! {

pub const PRESET_IDS: [&'static str; 3] = ["alice", "bob", "carol"];

/// A named key pair of the session.
#[derive(Clone, Debug, PartialEq, Eq)]
pub struct Identity {
    pub id: String,
    pub label: String,
    pub algorithm: String,
    pub private_hex: String,
    pub public_hex: String,
    pub preset: bool,
}

/// The identities of the session, in the order they were made.
#[derive(Debug)]
pub struct Roster {
    identities: Vec<Identity>,
}

/// `char::to_ascii_lowercase`.
pub open spec fn ascii_lower(c: char) -> char {
    if 'A' <= c && c <= 'Z' {
        (((c as u8) + 32) as u8) as char
    } else {
        c
    }
}

/// `str::eq_ignore_ascii_case`.
pub open spec fn eq_ignore_ascii_case(a: Seq<char>, b: Seq<char>) -> bool {
    a.len() == b.len() && forall|k: int| 0 <= k < a.len() ==> ascii_lower(a[k]) == ascii_lower(b[k])
}

/// The ASCII letters and digits of `s`, lowercased, in maximal runs joined by
/// single hyphens.
pub open spec fn slug(s: Seq<char>) -> Seq<char>
    decreases s.len(),
{
    if s.len() == 0 {
        seq![]
    } else {
        let p = s.drop_last();
        let c = s.last();
        if !is_ascii_alnum(c) {
            slug(p)
        } else if slug(p).len() == 0 {
            seq![ascii_lower(c)]
        } else if is_ascii_alnum(p.last()) {
            slug(p).push(ascii_lower(c))
        } else {
            slug(p).push('-').push(ascii_lower(c))
        }
    }
}

/// Two identities clash when their labels match ignoring ASCII case or their ids match.
pub open spec fn clashes(existing: Identity, label: Seq<char>, id: Seq<char>) -> bool {
    eq_ignore_ascii_case(existing.label@, label) || existing.id@ == id
}

/// The index of the first identity with id `id`.
pub open spec fn first_with_id(ids: Seq<Identity>, id: Seq<char>, i: int) -> bool {
    &&& 0 <= i < ids.len()
    &&& ids[i].id@ == id
    &&& forall|j: int| 0 <= j < i ==> ids[j].id@ != id
}

pub open spec fn has_id(ids: Seq<Identity>, id: Seq<char>) -> bool {
    exists|i: int| 0 <= i < ids.len() && ids[i].id@ == id
}

/// `identity '<label>' already exists (names are unique ignoring case)`.
pub open spec fn clash_message(label: Seq<char>) -> Seq<char> {
    "identity '"@ + label + "' already exists (names are unique ignoring case)"@
}

/// `unknown identity '<id>'`.
pub open spec fn unknown_message(id: Seq<char>) -> Seq<char> {
    "unknown identity '"@ + id + "'"@
}

impl View for Roster {
    type V = Seq<Identity>;

    closed spec fn view(&self) -> Seq<Identity> {
        self.identities@
    }
}

impl Roster {
    /// Ids are unique, and so are labels, ignoring ASCII case.
    pub closed spec fn wf(&self) -> bool {
        forall|i: int, j: int|
            0 <= i < j < self.identities@.len() ==> !clashes(
                self.identities@[i],
                self.identities@[j].label@,
                self.identities@[j].id@,
            ) && !clashes(self.identities@[j], self.identities@[i].label@, self.identities@[i].id@)
    }

    /// An empty roster.
    pub fn new() -> (r: Self)
        ensures
            r.wf(),
            r@ == Seq::<Identity>::empty(),
    {
        Roster { identities: Vec::new() }
    }

    /// The three presets `alice`, `bob` and `carol`, with fresh keys of
    /// randomly assigned algorithms (both algorithms always occur).
    pub fn seed() -> (r: Result<Self, String>)
        ensures
            match r {
                Ok(roster) => roster.wf() && is_preset_roster(roster@) && has_both_algorithms(
                    roster@[0].algorithm@,
                    roster@[1].algorithm@,
                    roster@[2].algorithm@,
                ),
                Err(_) => false,
            },
    {
        let algs = assign_preset_algs();
        Self::seed_with_algs(algs)
    }

    /// The three presets with the given algorithms, in order.
    fn seed_with_algs(algs: [String; 3]) -> (r: Result<Self, String>)
        ensures
            match r {
                Ok(roster) => roster.wf() && is_preset_roster(roster@) && roster@[0].algorithm@
                    == algs@[0]@ && roster@[1].algorithm@ == algs@[1]@ && roster@[2].algorithm@
                    == algs@[2]@,
                Err(e) => e@ == "unsupported algorithm"@ && !(is_supported_algorithm(algs@[0]@)
                    && is_supported_algorithm(algs@[1]@) && is_supported_algorithm(algs@[2]@)),
            },
    {
        proof {
            reveal_strlit("alice");
            reveal_strlit("bob");
            reveal_strlit("carol");
        }
        let mut identities: Vec<Identity> = Vec::new();
        let a = preset_identity("alice", &algs[0])?;
        identities.push(a);
        let b = preset_identity("bob", &algs[1])?;
        identities.push(b);
        let c = preset_identity("carol", &algs[2])?;
        identities.push(c);
        let r = Roster { identities };
        assert(r.wf()) by {
            assert forall|i: int, j: int| 0 <= i < j < r.identities@.len() implies !clashes(
                r.identities@[i],
                r.identities@[j].label@,
                r.identities@[j].id@,
            ) && !clashes(r.identities@[j], r.identities@[i].label@, r.identities@[i].id@) by {
                let li = r.identities@[i].label@;
                let lj = r.identities@[j].label@;
                if li.len() == lj.len() {
                    assert(ascii_lower(li[0]) != ascii_lower(lj[0]));
                }
            }
        }
        Ok(r)
    }

    /// All identities, in order.
    pub fn list(&self) -> (r: &[Identity])
        ensures
            r@ == self@,
    {
        self.identities.as_slice()
    }

    /// The first identity with id `id`.
    pub fn get(&self, id: &str) -> (r: Option<&Identity>)
        ensures
            match r {
                Some(x) => exists|i: int| first_with_id(self@, id@, i) && self@[i] == *x,
                None => !has_id(self@, id@),
            },
    {
        match self.find(id) {
            Some(i) => Some(&self.identities[i]),
            None => None,
        }
    }

    fn find(&self, id: &str) -> (r: Option<usize>)
        ensures
            match r {
                Some(i) => first_with_id(self@, id@, i as int),
                None => !has_id(self@, id@),
            },
    {
        let mut i: usize = 0;
        while i < self.identities.len()
            invariant
                i <= self.identities.len(),
                forall|j: int| 0 <= j < i ==> self.identities@[j].id@ != id@,
            decreases self.identities.len() - i,
        {
            if str_eq(self.identities[i].id.as_str(), id) {
                return Some(i);
            }
            i = i + 1;
        }
        None
    }

    /// Adds a user identity named `label` (trimmed) with fresh keys and returns
    /// its id, the slug of the name.  Names must be non-empty, contain a letter
    /// or digit and be unique ignoring ASCII case (and so must ids).
    pub fn add(&mut self, label: &str, algorithm: &str) -> (r: Result<String, String>)
        requires
            old(self).wf(),
        ensures
            final(self).wf(),
            ({
                let t = trim(label@);
                let id = slug(t);
                match r {
                    Ok(new_id) => {
                        &&& t.len() > 0 && id.len() > 0
                        &&& forall|i: int| 0 <= i < old(self)@.len() ==> !clashes(#[trigger] old(self)@[i], t, id)
                        &&& is_supported_algorithm(algorithm@)
                        &&& new_id@ == id
                        &&& final(self)@.len() == old(self)@.len() + 1
                        &&& final(self)@.take(old(self)@.len() as int) == old(self)@
                        &&& final(self)@.last().id@ == id
                        &&& final(self)@.last().label@ == t
                        &&& final(self)@.last().algorithm@ == algorithm@
                        &&& is_hex_key_pair(algorithm@, final(self)@.last().private_hex@, final(self)@.last().public_hex@)
                        &&& !final(self)@.last().preset
                    },
                    Err(e) => {
                        &&& final(self)@ == old(self)@
                        &&& if t.len() == 0 {
                            e@ == "name is required"@
                        } else if id.len() == 0 {
                            e@ == "name must include a letter or digit"@
                        } else if exists|i: int| 0 <= i < old(self)@.len() && clashes(#[trigger] old(self)@[i], t, id) {
                            exists|i: int| 0 <= i < old(self)@.len() && clashes(#[trigger] old(self)@[i], t, id)
                                && (forall|j: int| 0 <= j < i ==> !clashes(#[trigger] old(self)@[j], t, id))
                                && e@ == clash_message(old(self)@[i].label@)
                        } else {
                            !is_supported_algorithm(algorithm@) && e@ == "unsupported algorithm"@
                        }
                    },
                }
            }),
    {
        let chars = chars_of(label);
        let t = trim_chars(&chars);
        if t.len() == 0 {
            return Err(owned("name is required"));
        }
        let id_chars = slug_chars(&t);
        if id_chars.len() == 0 {
            return Err(owned("name must include a letter or digit"));
        }
        let mut i: usize = 0;
        while i < self.identities.len()
            invariant
                i <= self.identities.len(),
                self.wf(),
                self@ == old(self)@,
                t@ == trim(label@),
                t@.len() > 0,
                id_chars@.len() > 0,
                id_chars@ == slug(t@),
                forall|j: int| 0 <= j < i ==> !clashes(#[trigger] self@[j], t@, id_chars@),
            decreases self.identities.len() - i,
        {
            let existing = &self.identities[i];
            let same_label = eq_ignore_ascii_case_exec(&chars_of(existing.label.as_str()), &t);
            let same_id = chars_eq(&chars_of(existing.id.as_str()), &id_chars);
            if same_label || same_id {
                assert(clashes(self@[i as int], t@, id_chars@));
                assert(self@ == old(self)@);
                assert(clashes(old(self)@[i as int], t@, id_chars@));
                assert(existing.label@ == old(self)@[i as int].label@);
                let mut message = owned("identity '");
                push_str(&mut message, existing.label.as_str());
                push_str(&mut message, "' already exists (names are unique ignoring case)");
                assert(message@ == clash_message(old(self)@[i as int].label@));
                assert(t@.len() > 0);
                assert(id_chars@.len() > 0);
                assert(forall|j: int| 0 <= j < i ==> !clashes(#[trigger] old(self)@[j], t@, id_chars@));
                assert(exists|k: int| 0 <= k < old(self)@.len() && clashes(#[trigger] old(self)@[k], t@, id_chars@)
                    && (forall|j: int| 0 <= j < k ==> !clashes(#[trigger] old(self)@[j], t@, id_chars@))
                    && message@ == clash_message(old(self)@[k].label@));
                return Err(message);
            }
            i = i + 1;
        }
        let pair = generate_keypair(algorithm)?;
        let id = string_of(&id_chars);
        let new_id = string_of(&id_chars);
        let ghost before = self@;
        self.identities.push(
            Identity {
                id,
                label: string_of(&t),
                algorithm: owned(algorithm),
                private_hex: pair.private_hex,
                public_hex: pair.public_hex,
                preset: false,
            },
        );
        assert(self@.take(before.len() as int) == before);
        assert(self.wf()) by {
            assert forall|a: int, b: int| 0 <= a < b < self.identities@.len() implies !clashes(
                self.identities@[a],
                self.identities@[b].label@,
                self.identities@[b].id@,
            ) && !clashes(self.identities@[b], self.identities@[a].label@, self.identities@[a].id@) by {
                if b == before.len() {
                    assert(!clashes(before[a], t@, id_chars@));
                    lemma_eq_ignore_ascii_case_symmetric(before[a].label@, t@);
                } else {
                    assert(self.identities@[a] == before[a]);
                    assert(self.identities@[b] == before[b]);
                }
            }
        }
        Ok(new_id)
    }

    /// Gives a user identity fresh keys of `algorithm`; presets keep theirs.
    pub fn remint(&mut self, id: &str, algorithm: &str) -> (r: Result<(), String>)
        requires
            old(self).wf(),
        ensures
            final(self).wf(),
            match r {
                Ok(()) => exists|i: int| {
                    &&& first_with_id(old(self)@, id@, i)
                    &&& !old(self)@[i].preset
                    &&& final(self)@.len() == old(self)@.len()
                    &&& forall|j: int| 0 <= j < old(self)@.len() && j != i ==> final(self)@[j] == old(self)@[j]
                    &&& final(self)@[i].id == old(self)@[i].id
                    &&& final(self)@[i].label == old(self)@[i].label
                    &&& final(self)@[i].preset == old(self)@[i].preset
                    &&& final(self)@[i].algorithm@ == algorithm@
                    &&& is_hex_key_pair(algorithm@, final(self)@[i].private_hex@, final(self)@[i].public_hex@)
                },
                Err(e) => {
                    &&& final(self)@ == old(self)@
                    &&& if !has_id(old(self)@, id@) {
                        e@ == unknown_message(id@)
                    } else if exists|i: int| first_with_id(old(self)@, id@, i) && old(self)@[i].preset {
                        e@ == "alice, bob, and carol keep the keys minted at load"@
                    } else {
                        !is_supported_algorithm(algorithm@) && e@ == "unsupported algorithm"@
                    }
                },
            },
    {
        let i = match self.find(id) {
            Some(i) => i,
            None => return Err(unknown(id)),
        };
        if self.identities[i].preset {
            return Err(owned("alice, bob, and carol keep the keys minted at load"));
        }
        let pair = generate_keypair(algorithm)?;
        let updated = Identity {
            id: self.identities[i].id.clone(),
            label: self.identities[i].label.clone(),
            algorithm: owned(algorithm),
            private_hex: pair.private_hex,
            public_hex: pair.public_hex,
            preset: false,
        };
        let ghost before = self@;
        self.identities.set(i, updated);
        assert(self.wf()) by {
            assert forall|a: int, b: int| 0 <= a < b < self.identities@.len() implies !clashes(
                self.identities@[a],
                self.identities@[b].label@,
                self.identities@[b].id@,
            ) && !clashes(self.identities@[b], self.identities@[a].label@, self.identities@[a].id@) by {
                assert(!clashes(before[a], before[b].label@, before[b].id@));
                assert(!clashes(before[b], before[a].label@, before[a].id@));
            }
        }
        Ok(())
    }

    /// Removes a user identity; presets cannot be removed.
    pub fn delete(&mut self, id: &str) -> (r: Result<(), String>)
        requires
            old(self).wf(),
        ensures
            final(self).wf(),
            match r {
                Ok(()) => exists|i: int| {
                    &&& first_with_id(old(self)@, id@, i)
                    &&& !old(self)@[i].preset
                    &&& final(self)@ == old(self)@.remove(i)
                },
                Err(e) => {
                    &&& final(self)@ == old(self)@
                    &&& if !has_id(old(self)@, id@) {
                        e@ == unknown_message(id@)
                    } else {
                        exists|i: int| first_with_id(old(self)@, id@, i) && old(self)@[i].preset
                        && e@ == "alice, bob, and carol cannot be removed"@
                    }
                },
            },
    {
        let i = match self.find(id) {
            Some(i) => i,
            None => return Err(unknown(id)),
        };
        if self.identities[i].preset {
            return Err(owned("alice, bob, and carol cannot be removed"));
        }
        let ghost before = self@;
        self.identities.remove(i);
        assert(self.wf()) by {
            assert forall|a: int, b: int| 0 <= a < b < self.identities@.len() implies !clashes(
                self.identities@[a],
                self.identities@[b].label@,
                self.identities@[b].id@,
            ) && !clashes(self.identities@[b], self.identities@[a].label@, self.identities@[a].id@) by {
                let a0 = if a < i { a } else { a + 1 };
                let b0 = if b < i { b } else { b + 1 };
                assert(self.identities@[a] == before[a0]);
                assert(self.identities@[b] == before[b0]);
                assert(!clashes(before[a0], before[b0].label@, before[b0].id@));
                assert(!clashes(before[b0], before[a0].label@, before[a0].id@));
            }
        }
        Ok(())
    }

    /// Replaces the key texts of a user identity; presets are read-only.
    pub fn update_keys(&mut self, id: &str, private_hex: &str, public_hex: &str) -> (r: Result<(), String>)
        requires
            old(self).wf(),
        ensures
            final(self).wf(),
            match r {
                Ok(()) => exists|i: int| {
                    &&& first_with_id(old(self)@, id@, i)
                    &&& !old(self)@[i].preset
                    &&& final(self)@.len() == old(self)@.len()
                    &&& forall|j: int| 0 <= j < old(self)@.len() && j != i ==> final(self)@[j] == old(self)@[j]
                    &&& final(self)@[i].id == old(self)@[i].id
                    &&& final(self)@[i].label == old(self)@[i].label
                    &&& final(self)@[i].algorithm == old(self)@[i].algorithm
                    &&& final(self)@[i].preset == old(self)@[i].preset
                    &&& final(self)@[i].private_hex@ == private_hex@
                    &&& final(self)@[i].public_hex@ == public_hex@
                },
                Err(e) => {
                    &&& final(self)@ == old(self)@
                    &&& if !has_id(old(self)@, id@) {
                        e@ == unknown_message(id@)
                    } else {
                        exists|i: int| first_with_id(old(self)@, id@, i) && old(self)@[i].preset
                        && e@ == "alice, bob, and carol keys are read-only"@
                    }
                },
            },
    {
        let i = match self.find(id) {
            Some(i) => i,
            None => return Err(unknown(id)),
        };
        if self.identities[i].preset {
            return Err(owned("alice, bob, and carol keys are read-only"));
        }
        let updated = Identity {
            id: self.identities[i].id.clone(),
            label: self.identities[i].label.clone(),
            algorithm: self.identities[i].algorithm.clone(),
            private_hex: owned(private_hex),
            public_hex: owned(public_hex),
            preset: false,
        };
        let ghost before = self@;
        self.identities.set(i, updated);
        assert(self.wf()) by {
            assert forall|a: int, b: int| 0 <= a < b < self.identities@.len() implies !clashes(
                self.identities@[a],
                self.identities@[b].label@,
                self.identities@[b].id@,
            ) && !clashes(self.identities@[b], self.identities@[a].label@, self.identities@[a].id@) by {
                assert(!clashes(before[a], before[b].label@, before[b].id@));
                assert(!clashes(before[b], before[a].label@, before[a].id@));
            }
        }
        Ok(())
    }
}

/// In a well-formed roster no two identities share an id, and no two labels
/// match ignoring ASCII case.
pub proof fn law_roster_names_unique(r: &Roster)
    requires
        r.wf(),
    ensures
        forall|i: int, j: int|
            #![trigger r@[i], r@[j]]
            0 <= i < r@.len() && 0 <= j < r@.len() && i != j ==> r@[i].id@ != r@[j].id@
                && !eq_ignore_ascii_case(r@[i].label@, r@[j].label@),
{
    assert forall|i: int, j: int| #![trigger r@[i], r@[j]] 0 <= i < r@.len() && 0 <= j < r@.len() && i != j implies r@[i].id@
        != r@[j].id@ && !eq_ignore_ascii_case(r@[i].label@, r@[j].label@) by {
        if i < j {
            assert(!clashes(r.identities@[i], r.identities@[j].label@, r.identities@[j].id@));
        } else {
            assert(!clashes(r.identities@[j], r.identities@[i].label@, r.identities@[i].id@));
            lemma_eq_ignore_ascii_case_symmetric(r@[i].label@, r@[j].label@);
        }
    }
}

impl Default for Roster {
    fn default() -> (r: Self)
        ensures
            r.wf(),
            r@ == Seq::<Identity>::empty(),
    {
        Roster::new()
    }
}

/// The presets `alice`, `bob` and `carol`, in that order, each labelled with
/// its id and holding a key pair of its algorithm.
pub open spec fn is_preset_roster(ids: Seq<Identity>) -> bool {
    &&& ids.len() == 3
    &&& ids[0].id@ == "alice"@ && ids[1].id@ == "bob"@ && ids[2].id@ == "carol"@
    &&& forall|i: int| 0 <= i < 3 ==> {
        &&& #[trigger] ids[i].label@ == ids[i].id@
        &&& ids[i].preset
        &&& is_hex_key_pair(ids[i].algorithm@, ids[i].private_hex@, ids[i].public_hex@)
    }
}

/// Both supported algorithms occur among three.
pub open spec fn has_both_algorithms(a: Seq<char>, b: Seq<char>, c: Seq<char>) -> bool {
    &&& (a == ED25519_NAME@ || b == ED25519_NAME@ || c == ED25519_NAME@)
    &&& (a == P256_NAME@ || b == P256_NAME@ || c == P256_NAME@)
}

fn unknown(id: &str) -> (e: String)
    ensures
        e@ == unknown_message(id@),
{
    let mut e = owned("unknown identity '");
    push_str(&mut e, id);
    push_str(&mut e, "'");
    e
}

fn preset_identity(id: &str, algorithm: &String) -> (r: Result<Identity, String>)
    ensures
        match r {
            Ok(x) => x.id@ == id@ && x.label@ == id@ && x.algorithm@ == algorithm@ && x.preset
                && is_hex_key_pair(algorithm@, x.private_hex@, x.public_hex@),
            Err(e) => e@ == "unsupported algorithm"@ && !is_supported_algorithm(algorithm@),
        },
{
    let pair = generate_keypair(algorithm.as_str())?;
    Ok(
        Identity {
            id: owned(id),
            label: owned(id),
            algorithm: algorithm.clone(),
            private_hex: pair.private_hex,
            public_hex: pair.public_hex,
            preset: true,
        },
    )
}

/// `OsRng.gen::<bool>()` of `rand`: a random bit.  Nothing is stated of it.
#[verifier::external_body]
fn random_bit() -> bool {
    OsRng.gen::<bool>()
}

/// `SliceRandom::shuffle` of `rand` with `OsRng`: a random permutation.
#[verifier::external_body]
fn shuffle(algs: &mut [String; 3])
    ensures
        final(algs)@.to_multiset() == old(algs)@.to_multiset(),
{
    algs.shuffle(&mut OsRng);
}

/// Algorithms for the three presets: one of each supported algorithm and a
/// random third, in random order.
pub fn assign_preset_algs() -> (algs: [String; 3])
    ensures
        has_both_algorithms(algs@[0]@, algs@[1]@, algs@[2]@),
        forall|i: int| 0 <= i < 3 ==> is_supported_algorithm(#[trigger] algs@[i]@),
{
    let extra = if random_bit() {
        ED25519_NAME
    } else {
        P256_NAME
    };
    let mut algs = [owned(ED25519_NAME), owned(P256_NAME), owned(extra)];
    let ghost before = algs@;
    shuffle(&mut algs);
    proof {
        before.to_multiset_ensures();
        algs@.to_multiset_ensures();
        assert(before.contains(before[0]));
        assert(before.contains(before[1]));
        assert(before.to_multiset().count(before[0]) > 0);
        assert(before.to_multiset().count(before[1]) > 0);
        assert(algs@.contains(before[0]));
        assert(algs@.contains(before[1]));
        assert forall|i: int| 0 <= i < 3 implies is_supported_algorithm(#[trigger] algs@[i]@) by {
            assert(algs@.contains(algs@[i]));
            assert(algs@.to_multiset().count(algs@[i]) > 0);
            assert(before.to_multiset().count(algs@[i]) > 0);
            assert(before.contains(algs@[i]));
        }
    }
    algs
}

/// Algorithm names as shown in lists.
pub open spec fn short_name(algorithm: Seq<char>) -> Seq<char> {
    if algorithm == ED25519_NAME@ {
        "Ed25519"@
    } else if algorithm == P256_NAME@ {
        "P-256"@
    } else {
        "unknown"@
    }
}

pub fn short_alg(algorithm: &str) -> (r: &'static str)
    ensures
        r@ == short_name(algorithm@),
{
    if str_eq(algorithm, ED25519_NAME) {
        "Ed25519"
    } else if str_eq(algorithm, P256_NAME) {
        "P-256"
    } else {
        "unknown"
    }
}

/// A long key text shortened to its first 8 and last 4 bytes around `…`.
pub open spec fn truncated_hex(bytes: Seq<u8>) -> Seq<char> {
    if bytes.len() <= 12 {
        decode_utf8(bytes)
    } else {
        decode_utf8(bytes.subrange(0, 8)) + "…"@ + decode_utf8(
            bytes.subrange(bytes.len() - 4, bytes.len() as int),
        )
    }
}

pub fn trunc_hex(hex: &str) -> (r: String)
    requires
        hex.spec_bytes().len() <= usize::MAX,
        hex.spec_bytes().len() > 12 ==> is_char_boundary(hex.spec_bytes(), 8) && is_char_boundary(
            hex.spec_bytes(),
            hex.spec_bytes().len() - 4,
        ),
    ensures
        r@ == truncated_hex(hex.spec_bytes()),
{
    proof {
        encode_utf8_decode_utf8(hex@);
    }
    let n = hex.len();
    if n <= 12 {
        return owned(hex);
    }
    let (head, _) = hex.split_at(8);
    let (_, tail) = hex.split_at(n - 4);
    proof {
        encode_utf8_decode_utf8(head@);
        encode_utf8_decode_utf8(tail@);
    }
    let mut r = owned(head);
    push_str(&mut r, "…");
    push_str(&mut r, tail);
    r
}

fn is_alnum_exec(c: char) -> (r: bool)
    ensures
        r == is_ascii_alnum(c),
{
    ('0' <= c && c <= '9') || ('a' <= c && c <= 'z') || ('A' <= c && c <= 'Z')
}

fn ascii_lower_exec(c: char) -> (r: char)
    ensures
        r == ascii_lower(c),
{
    if 'A' <= c && c <= 'Z' {
        ((c as u8) + 32) as char
    } else {
        c
    }
}

proof fn lemma_slug_last(s: Seq<char>)
    ensures
        slug(s).len() > 0 ==> slug(s).last() != '-' && is_ascii_alnum(slug(s).last()),
    decreases s.len(),
{
    if s.len() > 0 {
        lemma_slug_last(s.drop_last());
        let c = s.last();
        if is_ascii_alnum(c) {
            assert(slug(s).last() == ascii_lower(c));
        }
    }
}

fn slug_chars(t: &Vec<char>) -> (out: Vec<char>)
    ensures
        out@ == slug(t@),
{
    let mut out: Vec<char> = Vec::new();
    let mut pending = false;
    let mut k: usize = 0;
    while k < t.len()
        invariant
            k <= t.len(),
            pending == (slug(t@.take(k as int)).len() > 0 && !is_ascii_alnum(t@.take(k as int).last())),
            out@ == if pending {
                slug(t@.take(k as int)).push('-')
            } else {
                slug(t@.take(k as int))
            },
        decreases t.len() - k,
    {
        let c = t[k];
        let ghost p = t@.take(k as int);
        proof {
            let q = t@.take(k + 1);
            assert(q.drop_last() == p);
            assert(q.last() == c);
        }
        if is_alnum_exec(c) {
            out.push(ascii_lower_exec(c));
            pending = false;
        } else if out.len() > 0 && !pending {
            out.push('-');
            pending = true;
        }
        k = k + 1;
    }
    assert(t@.take(t.len() as int) == t@);
    proof {
        lemma_slug_last(t@);
    }
    if pending {
        out.pop();
        assert(out@ == slug(t@));
    }
    out
}

/// The id of a name: ASCII letters and digits of the trimmed name,
/// lowercased, runs joined by single hyphens.
pub fn slugify(name: &str) -> (r: String)
    ensures
        r@ == slug(trim(name@)),
{
    let chars = chars_of(name);
    let t = trim_chars(&chars);
    let s = slug_chars(&t);
    string_of(&s)
}

/// A slug is made of lowercase ASCII letters, digits and single inner hyphens.
pub open spec fn is_slug(r: Seq<char>) -> bool {
    &&& forall|k: int| 0 <= k < r.len() ==> (is_ascii_alnum(#[trigger] r[k]) && !('A' <= r[k] && r[k] <= 'Z')) || r[k] == '-'
    &&& r.len() > 0 ==> r[0] != '-' && r.last() != '-'
    &&& forall|k: int| 0 <= k < r.len() - 1 ==> !(#[trigger] r[k] == '-' && r[k + 1] == '-')
}

/// Every id made by `slugify` is a slug.
pub proof fn law_slug_shape(s: Seq<char>)
    ensures
        is_slug(slug(s)),
    decreases s.len(),
{
    if s.len() > 0 {
        let p = s.drop_last();
        let c = s.last();
        law_slug_shape(p);
        lemma_slug_last(p);
        lemma_slug_last(s);
        let sp = slug(p);
        let r = slug(s);
        if is_ascii_alnum(c) {
            assert(is_ascii_alnum(ascii_lower(c)) && !('A' <= ascii_lower(c) && ascii_lower(c) <= 'Z'));
            if sp.len() > 0 {
                assert(r[0] == sp[0]);
            }
        }
    }
}

fn chars_eq(a: &Vec<char>, b: &Vec<char>) -> (r: bool)
    ensures
        r == (a@ == b@),
{
    if a.len() != b.len() {
        return false;
    }
    let mut k: usize = 0;
    while k < a.len()
        invariant
            k <= a.len() == b.len(),
            forall|q: int| 0 <= q < k ==> a@[q] == b@[q],
        decreases a.len() - k,
    {
        if a[k] != b[k] {
            return false;
        }
        k = k + 1;
    }
    assert(a@ =~= b@);
    true
}

fn eq_ignore_ascii_case_exec(a: &Vec<char>, b: &Vec<char>) -> (r: bool)
    ensures
        r == eq_ignore_ascii_case(a@, b@),
{
    if a.len() != b.len() {
        return false;
    }
    let mut k: usize = 0;
    while k < a.len()
        invariant
            k <= a.len() == b.len(),
            forall|q: int| 0 <= q < k ==> ascii_lower(a@[q]) == ascii_lower(b@[q]),
        decreases a.len() - k,
    {
        if ascii_lower_exec(a[k]) != ascii_lower_exec(b[k]) {
            return false;
        }
        k = k + 1;
    }
    true
}

proof fn lemma_eq_ignore_ascii_case_symmetric(a: Seq<char>, b: Seq<char>)
    ensures
        eq_ignore_ascii_case(a, b) == eq_ignore_ascii_case(b, a),
{
}

fn string_of(v: &Vec<char>) -> (s: String)
    ensures
        s@ == v@,
{
    crate::text::string_from_chars(v.as_slice())
}

} // verus!
