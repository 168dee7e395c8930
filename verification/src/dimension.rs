//! Dimension types and the server-wide registry that validates and holds
//! them.

use vstd::prelude::*;
use vstd::utf8::{decode_utf8, encode_utf8};

verus! {

/// A list of dimension types, as a plain collection.
pub struct DimensionTypeRegistry {
    pub dimensions: Vec<DimensionType>,
}

/// The rules one dimension plays by. The vertical extent must come in
/// 16-block sections; the logical height cannot exceed the real one.
#[derive(Clone, Debug)]
pub struct DimensionType {
    pub piglin_safe: bool,
    pub natural: bool,
    pub fixed_time: Option<u64>,
    pub infiniburn: String,
    pub respawn_anchor_works: bool,
    pub bed_works: bool,
    pub effects: String,
    pub has_skylight: bool,
    pub has_ceiling: bool,
    pub ultrawarm: bool,
    pub has_raids: bool,
    pub logical_height: i32,
    pub min_y: i32,
    pub height: i32,
    pub monster_spawn_light_level: Option<u8>,
    pub monster_spawn_block_light_limit: u8,
}

/// What register demands of a dimension: vertical extent and floor in whole
/// sections, logical height within the real extent.
pub open spec fn dimension_valid(d: DimensionType) -> bool {
    &&& d.min_y as int % 16 == 0
    &&& d.height as int % 16 == 0
    &&& 0 <= d.logical_height <= d.height
}

impl DimensionType {
    /// Checks the validation rules, naming the first one broken.
    pub fn validate(&self) -> (r: Result<(), String>)
        ensures
            r is Ok <==> dimension_valid(*self),
            r matches Err(m) ==> (m@ == "min_y must be multiple of 16"@ || m@
                == "height must be multiple of 16"@ || m@
                == "logical_height must be between 0 and height"@),
    {
        if self.min_y % 16 != 0 {
            return Err(<String as vstd::string::StringExecFns>::from_str("min_y must be multiple of 16"));
        }
        if self.height % 16 != 0 {
            return Err(<String as vstd::string::StringExecFns>::from_str("height must be multiple of 16"));
        }
        if self.logical_height > self.height || self.logical_height < 0 {
            return Err(
                <String as vstd::string::StringExecFns>::from_str(
                    "logical_height must be between 0 and height",
                ),
            );
        }
        Ok(())
    }
}

/// What can go wrong registering a dimension type.
#[derive(Clone, Copy, PartialEq, Eq, Structural, Debug)]
pub enum DimensionError {
    /// The key is already taken; registration never overwrites.
    AlreadyRegistered,
    /// The dimension broke a validation rule.
    ValidationError,
}

/// Whether two strings hold the same characters, decided over their UTF-8
/// bytes (the encoding is injective).
fn str_eq(a: &str, b: &str) -> (r: bool)
    ensures
        r == (a@ == b@),
{
    let ab = a.as_bytes();
    let bb = b.as_bytes();
    proof {
        vstd::utf8::encode_utf8_decode_utf8(a@);
        vstd::utf8::encode_utf8_decode_utf8(b@);
    }
    if ab.len() != bb.len() {
        return false;
    }
    let mut i: usize = 0;
    loop
        invariant
            ab@ == encode_utf8(a@),
            bb@ == encode_utf8(b@),
            ab@.len() == bb@.len(),
            i <= ab@.len(),
            decode_utf8(encode_utf8(a@)) == a@,
            decode_utf8(encode_utf8(b@)) == b@,
            forall|k: int| 0 <= k < i ==> ab@[k] == bb@[k],
        decreases ab@.len() - i,
    {
        if i >= ab.len() {
            proof {
                assert(ab@ =~= bb@);
            }
            return true;
        }
        if ab[i] != bb[i] {
            return false;
        }
        i = i + 1;
    }
}

/// First-match lookup of a key among registered dimension types.
pub open spec fn lookup_dimension(
    entries: Seq<(String, DimensionType)>,
    key: Seq<char>,
) -> Option<DimensionType>
    decreases entries.len(),
{
    if entries.len() == 0 {
        None
    } else if entries[0].0@ == key {
        Some(entries[0].1)
    } else {
        lookup_dimension(entries.drop_first(), key)
    }
}

proof fn lemma_lookup_dimension_found(entries: Seq<(String, DimensionType)>, i: int)
    requires
        0 <= i < entries.len(),
        forall|k: int| 0 <= k < i ==> entries[k].0@ != entries[i].0@,
    ensures
        lookup_dimension(entries, entries[i].0@) == Some(entries[i].1),
    decreases i,
{
    if i > 0 {
        lemma_lookup_dimension_found(entries.drop_first(), i - 1);
    }
}

proof fn lemma_lookup_dimension_none(entries: Seq<(String, DimensionType)>, key: Seq<char>)
    requires
        forall|k: int| 0 <= k < entries.len() ==> (#[trigger] entries[k].0@) != key,
    ensures
        lookup_dimension(entries, key) == None::<DimensionType>,
    decreases entries.len(),
{
    if entries.len() > 0 {
        lemma_lookup_dimension_none(entries.drop_first(), key);
    }
}

proof fn lemma_lookup_dimension_push(
    entries: Seq<(String, DimensionType)>,
    row: (String, DimensionType),
)
    ensures
        forall|k2: Seq<char>|
            k2 != row.0@ ==> #[trigger] lookup_dimension(entries.push(row), k2)
                == lookup_dimension(entries, k2),
        (forall|k: int| 0 <= k < entries.len() ==> (#[trigger] entries[k].0@) != row.0@)
            ==> lookup_dimension(entries.push(row), row.0@) == Some(row.1),
    decreases entries.len(),
{
    let pushed = entries.push(row);
    if entries.len() == 0 {
        assert(pushed[0] == row);
        assert(pushed.drop_first() =~= Seq::<(String, DimensionType)>::empty());
        assert forall|k2: Seq<char>| k2 != row.0@ implies #[trigger] lookup_dimension(pushed, k2)
            == lookup_dimension(entries, k2) by {
            assert(lookup_dimension(pushed, k2) == lookup_dimension(pushed.drop_first(), k2));
        }
    } else {
        lemma_lookup_dimension_push(entries.drop_first(), row);
        assert(pushed[0] == entries[0]);
        assert(pushed.drop_first() =~= entries.drop_first().push(row));
        assert forall|k2: Seq<char>| k2 != row.0@ implies #[trigger] lookup_dimension(pushed, k2)
            == lookup_dimension(entries, k2) by {
            if entries[0].0@ != k2 {
                assert(lookup_dimension(pushed, k2) == lookup_dimension(pushed.drop_first(), k2));
                assert(lookup_dimension(entries, k2) == lookup_dimension(
                    entries.drop_first(),
                    k2,
                ));
            }
        }
        if forall|k: int| 0 <= k < entries.len() ==> (#[trigger] entries[k].0@) != row.0@ {
            assert(forall|k: int|
                0 <= k < entries.drop_first().len() ==> (#[trigger] entries.drop_first()[k].0@)
                    != row.0@);
            assert(entries[0].0@ != row.0@);
            assert(lookup_dimension(pushed, row.0@) == lookup_dimension(
                pushed.drop_first(),
                row.0@,
            ));
        }
    }
}

/// The server-wide registry of dimension types, keyed by name. Registration
/// fails rather than overwrite a taken key.
pub struct DimensionTypeManager {
    entries: Vec<(String, DimensionType)>,
}

impl Default for DimensionTypeManager {
    /// A registry with nothing in it.
    fn default() -> (r: Self)
        ensures
            forall|key: Seq<char>| #[trigger] r.spec_get(key) == None::<DimensionType>,
    {
        DimensionTypeManager { entries: Vec::new() }
    }
}

impl DimensionTypeManager {
    /// The dimension registered under `key`, if any.
    pub closed spec fn spec_get(self, key: Seq<char>) -> Option<DimensionType> {
        lookup_dimension(self.entries@, key)
    }

    /// The first index holding `key`, if any.
    fn find_key(&self, key: &str) -> (r: Option<usize>)
        ensures
            match r {
                Some(i) => (i < self.entries@.len() && self.entries@[i as int].0@ == key@
                    && forall|k: int| 0 <= k < i ==> self.entries@[k].0@ != key@),
                None => forall|k: int|
                    0 <= k < self.entries@.len() ==> (#[trigger] self.entries@[k].0@) != key@,
            },
    {
        let mut i: usize = 0;
        loop
            invariant
                i <= self.entries@.len(),
                forall|k: int| 0 <= k < i ==> (#[trigger] self.entries@[k].0@) != key@,
            decreases self.entries@.len() - i,
    {
            if i >= self.entries.len() {
                return None;
            }
            if str_eq(self.entries[i].0.as_str(), key) {
                return Some(i);
            }
            i = i + 1;
        }
    }

    /// Registers `dim` under `key`: fails with `ValidationError` when the
    /// dimension breaks a rule, with `AlreadyRegistered` when the key is
    /// taken — never overwriting — and otherwise records it, leaving every
    /// other key as it was.
    pub fn register(&mut self, key: &str, dim: DimensionType) -> (r: Result<(), DimensionError>)
        ensures
            match r {
                Ok(_) => (dimension_valid(dim) && old(self).spec_get(key@) is None
                    && final(self).spec_get(key@) == Some(dim) && forall|k2: Seq<char>|
                    k2 != key@ ==> #[trigger] final(self).spec_get(k2) == old(self).spec_get(k2)),
                Err(e) => (*final(self) == *old(self) && ((e == DimensionError::ValidationError
                    && !dimension_valid(dim)) || (e == DimensionError::AlreadyRegistered
                    && dimension_valid(dim) && old(self).spec_get(key@) is Some))),
            },
    {
        match dim.validate() {
            Ok(_) => {},
            Err(_) => {
                return Err(DimensionError::ValidationError);
            },
        }
        match self.find_key(key) {
            Some(i) => {
                proof {
                    lemma_lookup_dimension_found(self.entries@, i as int);
                }
                Err(DimensionError::AlreadyRegistered)
            },
            None => {
                let ghost rows = self.entries@;
                let owned_key = <String as vstd::string::StringExecFns>::from_str(key);
                let row = (owned_key, dim);
                self.entries.push(row);
                proof {
                    lemma_lookup_dimension_none(rows, key@);
                    lemma_lookup_dimension_push(rows, row);
                }
                Ok(())
            },
        }
    }

    /// Looks a dimension up by key.
    pub fn get(&self, key: &str) -> (r: Option<&DimensionType>)
        ensures
            match r {
                Some(d) => self.spec_get(key@) == Some(*d),
                None => self.spec_get(key@) == None::<DimensionType>,
            },
    {
        match self.find_key(key) {
            Some(i) => {
                proof {
                    lemma_lookup_dimension_found(self.entries@, i as int);
                }
                Some(&self.entries[i].1)
            },
            None => {
                proof {
                    lemma_lookup_dimension_none(self.entries@, key@);
                }
                None
            },
        }
    }
}

} // verus!
