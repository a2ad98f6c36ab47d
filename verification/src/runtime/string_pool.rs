use vstd::prelude::*;
use vstd::string::StringExecFns;

use fxhash::FxHashMap;
use std::sync::Arc;

verus! {

#[verifier::external_type_specification]
#[verifier::external_body]
pub struct ExFxHasher(fxhash::FxHasher);

#[verifier::external_type_specification]
#[verifier::external_body]
#[verifier::reject_recursive_types(H)]
pub struct ExBuildHasherDefault<H>(std::hash::BuildHasherDefault<H>);

/// A map from strings to their numbers, hashed with the Fx hash.
pub type NameMap = FxHashMap<String, usize>;

/// What an Fx-hashed map from strings to numbers holds: each key by its
/// characters, with its number.
pub uninterp spec fn string_map_entries(m: NameMap) -> Map<Seq<char>, usize>;

/// Wraps `Default::default` for an Fx-hashed `HashMap`: a new map holds
/// nothing.
#[verifier::external_body]
fn string_map_new() -> (r: NameMap)
    ensures
        string_map_entries(r).dom() == Set::<Seq<char>>::empty(),
{
    FxHashMap::default()
}

/// Wraps `HashMap::get` on an Fx-hashed map: the number stored under a key
/// equal to `key`, if there is one.
#[verifier::external_body]
fn string_map_get(m: &NameMap, key: &str) -> (r: Option<usize>)
    ensures
        string_map_entries(*m).contains_key(key@) ==> r == Some(string_map_entries(*m)[key@]),
        !string_map_entries(*m).contains_key(key@) ==> r is None,
{
    m.get(key).copied()
}

/// Wraps `HashMap::insert` on an Fx-hashed map: afterwards `key` maps to
/// `value` and every other key to what it mapped to before.
#[verifier::external_body]
fn string_map_insert(m: &mut NameMap, key: String, value: usize)
    ensures
        string_map_entries(*final(m)) == string_map_entries(*old(m)).insert(key@, value),
{
    m.insert(key, value);
}

/// An interned string: its number in the interner.
#[derive(Copy, Clone, PartialEq, Eq, Structural, Hash, PartialOrd, Ord, Debug)]
pub struct Name(pub usize);

/// A shared string, as handed out by the interner.
#[derive(Clone, PartialEq, Eq, Hash)]
pub struct ArcStr(pub Arc<String>);

impl ArcStr {
    /// The characters of the string.
    pub open spec fn view(&self) -> Seq<char> {
        (*self.0)@
    }

    fn new(value: String) -> (r: ArcStr)
        ensures
            r@ == value@,
    {
        ArcStr(Arc::new(value))
    }

    pub fn as_str(&self) -> (r: &str)
        ensures
            r@ == self@,
    {
        self.0.as_str()
    }
}

/// Interned strings: each distinct string gets the next number, and
/// interning it again gives the same number.
pub struct Interner {
    map: NameMap,
    vec: Vec<String>,
}

impl Interner {
    #[verifier::type_invariant]
    spec fn inv(self) -> bool {
        let m = string_map_entries(self.map);
        &&& forall|i: int| 0 <= i < self.vec@.len() ==> #[trigger] m.contains_key(self.vec@[i]@) && m[self.vec@[i]@] == i
        &&& forall|k: Seq<char>| #[trigger] m.contains_key(k) ==> m[k] < self.vec@.len() && self.vec@[m[k] as int]@ == k
    }

    /// The interned strings, by number.
    pub closed spec fn view(&self) -> Seq<Seq<char>> {
        self.vec@.map_values(|s: String| s@)
    }

    /// An interner holding no string.
    pub fn new() -> (r: Interner)
        ensures
            r@ == Seq::<Seq<char>>::empty(),
    {
        let r = Interner { map: string_map_new(), vec: Vec::new() };
        proof {
            assert(r@ =~= Seq::<Seq<char>>::empty());
        }
        r
    }

    /// The name of `name`: its number if it was interned before, else the
    /// next number, under which it is now interned.
    pub fn intern(&mut self, name: &str) -> (r: Name)
        ensures
            old(self)@.contains(name@) ==> final(self)@ == old(self)@ && r.0 < old(self)@.len()
                && old(self)@[r.0 as int] == name@,
            !old(self)@.contains(name@) ==> final(self)@ == old(self)@.push(name@) && r.0 == old(self)@.len(),
            r.0 < final(self)@.len(),
            final(self)@[r.0 as int] == name@,
            old(self)@.no_duplicates(),
            final(self)@.no_duplicates(),
    {
        let mut taken = Interner::new();
        std::mem::swap(self, &mut taken);
        proof {
            use_type_invariant(&taken);
        }
        let ghost before = taken@;
        let Interner { mut map, mut vec } = taken;
        proof {
            assert forall|i: int, j: int| 0 <= i < vec@.len() && 0 <= j < vec@.len() && i != j implies #[trigger] vec@[i]@ != #[trigger] vec@[j]@ by {
                assert(string_map_entries(map).contains_key(vec@[i]@));
                assert(string_map_entries(map).contains_key(vec@[j]@));
            }
            assert(before.no_duplicates()) by {
                assert forall|i: int, j: int| 0 <= i < before.len() && 0 <= j < before.len() && i != j implies before[i] != before[j] by {
                    assert(vec@[i]@ != vec@[j]@);
                }
            }
        }
        match string_map_get(&map, name) {
            Some(val) => {
                proof {
                    assert(string_map_entries(map).contains_key(name@));
                    assert(before[val as int] == name@);
                    assert(before.contains(name@));
                }
                *self = Interner { map, vec };
                Name(val)
            },
            None => {
                proof {
                    if before.contains(name@) {
                        let i = choose|i: int| 0 <= i < before.len() && before[i] == name@;
                        assert(string_map_entries(map).contains_key(vec@[i]@));
                    }
                }
                let value = vec.len();
                let key = String::from_str(name);
                vec.push(key.clone());
                string_map_insert(&mut map, key, value);
                let r = Interner { map, vec };
                proof {
                    assert(r@ =~= before.push(name@));
                }
                *self = r;
                Name(value)
            },
        }
    }

    /// The number of interned strings.
    pub fn len(&self) -> (r: usize)
        ensures
            r == self@.len(),
    {
        self.vec.len()
    }

    /// The string interned under `name`.
    pub fn str(&self, name: Name) -> (r: ArcStr)
        requires
            name.0 < self@.len(),
        ensures
            r@ == self@[name.0 as int],
    {
        ArcStr::new(self.vec[name.0].clone())
    }
}

/// The name of `name` in `interner` (see `Interner::intern`).
pub fn intern(interner: &mut Interner, name: &str) -> (r: Name)
    ensures
        old(interner)@.contains(name@) ==> final(interner)@ == old(interner)@ && old(interner)@[r.0 as int] == name@,
        !old(interner)@.contains(name@) ==> final(interner)@ == old(interner)@.push(name@) && r.0 == old(interner)@.len(),
        r.0 < final(interner)@.len(),
        final(interner)@[r.0 as int] == name@,
        old(interner)@.no_duplicates(),
        final(interner)@.no_duplicates(),
{
    interner.intern(name)
}

/// The string interned under `name` in `interner`.
pub fn str(interner: &Interner, name: Name) -> (r: ArcStr)
    requires
        name.0 < interner@.len(),
    ensures
        r@ == interner@[name.0 as int],
{
    interner.str(name)
}

} // verus!
