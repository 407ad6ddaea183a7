//! Device-tree nodes and properties, modeled as owned data, with the
//! big-endian property decoding the driver relies on.

use vstd::prelude::*;
use crate::DriverError;

verus! {

/// Big-endian value of a byte sequence.
pub open spec fn spec_be_value(data: Seq<u8>) -> int
    decreases data.len(),
{
    if data.len() == 0 {
        0
    } else {
        spec_be_value(data.drop_last()) * 256 + data.last()
    }
}

/// A value decodable from a property with a fixed unit size.
pub trait PropertyUnit: Sized {
    /// The size in bytes of a single data unit.
    spec fn spec_unit_size() -> usize;

    /// The value a unit-sized byte sequence decodes to.
    spec fn spec_decode(data: Seq<u8>) -> Self;

    fn unit_size() -> (r: usize)
        ensures
            r == Self::spec_unit_size(),
            r > 0,
    ;

    /// Decode one data unit from a byte slice of exactly the unit size.
    fn from_bytes(data: &[u8]) -> (r: Self)
        requires
            data@.len() == Self::spec_unit_size(),
        ensures
            r == Self::spec_decode(data@),
    ;
}

/// Reading one more byte multiplies the prefix value by 256 and adds
/// the byte.
pub proof fn lemma_be_take_step(s: Seq<u8>, i: int)
    requires
        0 <= i < s.len(),
    ensures
        spec_be_value(s.take(i + 1)) == spec_be_value(s.take(i)) * 256 + s[i],
{
    assert(s.take(i + 1).drop_last() =~= s.take(i));
    assert(s.take(i + 1).last() == s[i]);
}

impl PropertyUnit for u32 {
    open spec fn spec_unit_size() -> usize {
        4
    }

    open spec fn spec_decode(data: Seq<u8>) -> u32 {
        (spec_be_value(data) % 0x1_0000_0000) as u32
    }

    fn unit_size() -> usize {
        4
    }

    fn from_bytes(data: &[u8]) -> (r: u32)
        ensures
            r == <u32 as PropertyUnit>::spec_decode(data@),
    {
        let ghost s = data@;
        proof {
            assert(s.take(0) =~= Seq::<u8>::empty());
            lemma_be_take_step(s, 0);
            lemma_be_take_step(s, 1);
            lemma_be_take_step(s, 2);
            lemma_be_take_step(s, 3);
            assert(s.take(4) =~= s);
        }
        let b0 = data[0] as u64;
        let b1 = data[1] as u64;
        let b2 = data[2] as u64;
        let b3 = data[3] as u64;
        let acc: u64 = ((b0 * 256 + b1) * 256 + b2) * 256 + b3;
        proof {
            vstd::arithmetic::div_mod::lemma_small_mod(acc as nat, 0x1_0000_0000);
        }
        acc as u32
    }
}

impl PropertyUnit for u64 {
    open spec fn spec_unit_size() -> usize {
        8
    }

    open spec fn spec_decode(data: Seq<u8>) -> u64 {
        (spec_be_value(data) % 0x1_0000_0000_0000_0000) as u64
    }

    fn unit_size() -> usize {
        8
    }

    fn from_bytes(data: &[u8]) -> (r: u64)
        ensures
            r == <u64 as PropertyUnit>::spec_decode(data@),
    {
        let ghost s = data@;
        proof {
            assert(s.take(0) =~= Seq::<u8>::empty());
            lemma_be_take_step(s, 0);
            lemma_be_take_step(s, 1);
            lemma_be_take_step(s, 2);
            lemma_be_take_step(s, 3);
            lemma_be_take_step(s, 4);
            lemma_be_take_step(s, 5);
            lemma_be_take_step(s, 6);
            lemma_be_take_step(s, 7);
            assert(s.take(8) =~= s);
        }
        let mut acc: u64 = data[0] as u64;
        acc = acc * 256 + data[1] as u64;
        acc = acc * 256 + data[2] as u64;
        acc = acc * 256 + data[3] as u64;
        acc = acc * 256 + data[4] as u64;
        acc = acc * 256 + data[5] as u64;
        acc = acc * 256 + data[6] as u64;
        acc = acc * 256 + data[7] as u64;
        proof {
            vstd::arithmetic::div_mod::lemma_small_mod(acc as nat, 0x1_0000_0000_0000_0000);
        }
        acc
    }
}

/// A compatible-string entry of a device-id table.
pub struct DeviceId {
    pub compatible: Vec<u8>,
}

impl DeviceId {
    pub fn new(compatible: Vec<u8>) -> (r: DeviceId)
        ensures
            r.compatible@ == compatible@,
    {
        DeviceId { compatible }
    }
}

/// A property attached to a device-tree node.
pub struct Property {
    pub name: Vec<u8>,
    pub value: Vec<u8>,
}

impl Property {
    /// The length of the property value in bytes.
    pub fn len(&self) -> (r: usize)
        ensures
            r == self.value.len(),
    {
        self.value.len()
    }

    /// A zero-length property typically represents boolean true.
    pub fn is_empty(&self) -> (r: bool)
        ensures
            r == (self.value.len() == 0),
    {
        self.value.len() == 0
    }

    /// Decode the whole property as one value of `T`; the length must
    /// match exactly.
    pub fn decode<T: PropertyUnit>(&self) -> (r: Result<T, DriverError>)
        ensures
            r is Ok <==> self.value@.len() == T::spec_unit_size(),
            r matches Ok(v) ==> v == T::spec_decode(self.value@),
            r is Err ==> r == Err::<T, DriverError>(DriverError::Invalid),
    {
        if self.value.len() != T::unit_size() {
            return Err(DriverError::Invalid);
        }
        Ok(T::from_bytes(self.value.as_slice()))
    }

    /// Copy the property into a unit-typed vector; the length must be
    /// an exact multiple matching the target length.
    pub fn copy_to_slice<T: PropertyUnit + Copy>(&self, target: &mut Vec<T>) -> (r: Result<
        (),
        DriverError,
    >)
        ensures
            r is Ok <==> ((self.value@.len() as int) % (T::spec_unit_size() as int) == 0 && (
            self.value@.len() as int) / (T::spec_unit_size() as int) == old(target).len()),
            r is Ok ==> final(target).len() == old(target).len() && (forall|i: int|
                0 <= i < final(target).len() ==> #[trigger] final(target)@[i] == T::spec_decode(
                    self.value@.subrange(
                        i * T::spec_unit_size(),
                        i * T::spec_unit_size() + T::spec_unit_size(),
                    ),
                )),
            r is Err ==> r == Err::<(), DriverError>(DriverError::Invalid) && *final(target)
                == *old(target),
    {
        let unit = T::unit_size();
        if self.value.len() % unit != 0 {
            return Err(DriverError::Invalid);
        }
        if self.value.len() / unit != target.len() {
            return Err(DriverError::Invalid);
        }
        let count = target.len();
        proof {
            vstd::arithmetic::div_mod::lemma_fundamental_div_mod(
                self.value@.len() as int,
                unit as int,
            );
        }
        let mut i: usize = 0;
        while i < count
            invariant
                count == target.len(),
                count * T::spec_unit_size() == self.value@.len(),
                self.value@.len() <= usize::MAX,
                unit == T::spec_unit_size(),
                unit > 0,
                i <= count,
                forall|j: int|
                    0 <= j < i ==> #[trigger] target@[j] == T::spec_decode(
                        self.value@.subrange(
                            j * T::spec_unit_size(),
                            j * T::spec_unit_size() + T::spec_unit_size(),
                        ),
                    ),
            decreases count - i,
        {
            proof {
                assert(i * unit + unit <= count * unit) by (nonlinear_arith)
                    requires
                        i < count,
                        unit > 0,
                ;
                assert(i * unit >= 0) by (nonlinear_arith)
                    requires
                        i >= 0,
                        unit > 0,
                ;
            }
            let chunk = vstd::slice::slice_subrange(
                self.value.as_slice(),
                i * unit,
                i * unit + unit,
            );
            let v = T::from_bytes(chunk);
            target.set(i, v);
            i = i + 1;
        }
        Ok(())
    }
}

/// A device-tree node: its name and its properties.
pub struct Node {
    pub name: Vec<u8>,
    pub properties: Vec<Property>,
}

/// Index of the first property with the given name, if any.
pub open spec fn spec_find_property(props: Seq<Property>, name: Seq<u8>) -> Option<int>
    decreases props.len(),
{
    if props.len() == 0 {
        None
    } else if props[0].name@ == name {
        Some(0)
    } else {
        match spec_find_property(props.drop_first(), name) {
            Some(i) => Some(i + 1),
            None => None,
        }
    }
}

/// With no match among the first `i` properties, the search result is
/// the result over the rest, shifted by `i`.
pub proof fn lemma_find_after_prefix(props: Seq<Property>, name: Seq<u8>, i: int)
    requires
        0 <= i <= props.len(),
        forall|j: int| 0 <= j < i ==> (#[trigger] props[j]).name@ != name,
    ensures
        spec_find_property(props, name) == (match spec_find_property(props.skip(i), name) {
            Some(k) => Some(i + k),
            None => None::<int>,
        }),
    decreases i,
{
    if i == 0 {
        assert(props.skip(0) =~= props);
    } else {
        assert(props[0].name@ != name);
        assert forall|j: int|
            0 <= j < i - 1 implies (#[trigger] props.drop_first()[j]).name@ != name by {
            assert(props.drop_first()[j] == props[j + 1]);
        }
        lemma_find_after_prefix(props.drop_first(), name, i - 1);
        assert(props.drop_first().skip(i - 1) =~= props.skip(i));
    }
}

/// The search comes up empty exactly when no property carries the name.
pub proof fn lemma_find_none_iff(props: Seq<Property>, name: Seq<u8>)
    ensures
        spec_find_property(props, name) is None <==> (forall|j: int|
            0 <= j < props.len() ==> (#[trigger] props[j]).name@ != name),
        spec_find_property(props, name) matches Some(i) ==> 0 <= i < props.len() && props[i].name@
            == name,
    decreases props.len(),
{
    if props.len() > 0 {
        let df = props.drop_first();
        lemma_find_none_iff(df, name);
        if props[0].name@ == name {
            assert(!(forall|j: int|
                0 <= j < props.len() ==> (#[trigger] props[j]).name@ != name)) by {
                assert(props[0].name@ == name);
            }
        } else {
            if spec_find_property(df, name) is None {
                assert forall|j: int|
                    0 <= j < props.len() implies (#[trigger] props[j]).name@ != name by {
                    if j > 0 {
                        assert(df[j - 1] == props[j]);
                        assert(df[j - 1].name@ != name);
                    }
                }
            } else {
                let k = spec_find_property(df, name).unwrap();
                assert(df[k] == props[k + 1]);
                assert(props[k + 1].name@ == name);
            }
        }
    }
}

impl Node {
    /// Look up a property by name: the first property carrying it, or
    /// `None` exactly when the node has none.
    pub fn find_property(&self, name: &[u8]) -> (r: Option<&Property>)
        ensures
            match spec_find_property(self.properties@, name@) {
                Some(i) => r matches Some(p) && *p == self.properties@[i]
                    && self.properties@[i].name@ == name@,
                None => r is None,
            },
            match r {
                Some(p) => exists|i: int|
                    0 <= i < self.properties.len() && *p == self.properties@[i]
                        && self.properties@[i].name@ == name@,
                None => forall|i: int|
                    0 <= i < self.properties.len() ==> (#[trigger] self.properties@[i]).name@
                        != name@,
            },
    {
        let mut i: usize = 0;
        while i < self.properties.len()
            invariant
                i <= self.properties.len(),
                forall|j: int|
                    0 <= j < i ==> (#[trigger] self.properties@[j]).name@ != name@,
            decreases self.properties.len() - i,
        {
            let candidate = &self.properties[i];
            if candidate.name.len() == name.len() {
                let mut equal = true;
                let mut k: usize = 0;
                while k < name.len()
                    invariant
                        candidate == &self.properties@[i as int],
                        candidate.name.len() == name.len(),
                        i < self.properties.len(),
                        k <= name.len(),
                        equal <==> (forall|m: int|
                            0 <= m < k ==> candidate.name@[m] == name@[m]),
                    decreases name.len() - k,
                {
                    if candidate.name[k] != name[k] {
                        equal = false;
                    }
                    k = k + 1;
                }
                if equal {
                    proof {
                        assert(candidate.name@ =~= name@);
                        lemma_find_after_prefix(self.properties@, name@, i as int);
                        assert(self.properties@.skip(i as int)[0] == self.properties@[i as int]);
                        assert(spec_find_property(self.properties@.skip(i as int), name@) == Some(
                            0int,
                        ));
                    }
                    return Some(candidate);
                }
            }
            proof {
                if candidate.name.len() == name.len() {
                    let ghost m = choose|m: int|
                        0 <= m < name@.len() && candidate.name@[m] != name@[m];
                    assert(self.properties@[i as int].name@ != name@);
                } else {
                    assert(self.properties@[i as int].name@.len() != name@.len());
                }
            }
            i = i + 1;
        }
        proof {
            lemma_find_after_prefix(self.properties@, name@, self.properties@.len() as int);
            assert(self.properties@.skip(self.properties@.len() as int) =~= Seq::<
                Property,
            >::empty());
        }
        None
    }

    /// Whether the node carries a property of the given name.
    pub fn property_present(&self, name: &[u8]) -> (r: bool)
        ensures
            r == exists|i: int|
                0 <= i < self.properties.len() && (#[trigger] self.properties@[i]).name@ == name@,
    {
        match self.find_property(name) {
            Some(_) => true,
            None => false,
        }
    }

    /// Look up a mandatory property and decode it. A missing property
    /// is `NoEntry`; a present one decodes to `Ok` when its length is
    /// exactly one unit, and is `Invalid` otherwise.
    pub fn get_property<T: PropertyUnit>(&self, name: &[u8]) -> (r: Result<T, DriverError>)
        ensures
            match spec_find_property(self.properties@, name@) {
                None => r == Err::<T, DriverError>(DriverError::NoEntry),
                Some(i) => {
                    &&& (self.properties@[i].value@.len() == T::spec_unit_size() ==> r == Ok::<
                        T,
                        DriverError,
                    >(T::spec_decode(self.properties@[i].value@)))
                    &&& (self.properties@[i].value@.len() != T::spec_unit_size() ==> r == Err::<
                        T,
                        DriverError,
                    >(DriverError::Invalid))
                },
            },
            (forall|i: int|
                0 <= i < self.properties.len() ==> (#[trigger] self.properties@[i]).name@ != name@)
                ==> r == Err::<T, DriverError>(DriverError::NoEntry),
    {
        proof {
            lemma_find_none_iff(self.properties@, name@);
        }
        match self.find_property(name) {
            Some(p) => p.decode(),
            None => Err(DriverError::NoEntry),
        }
    }

    /// Look up an optional property and decode it. A missing property
    /// is `Ok(None)` — absence is not an error; a present one decodes
    /// to `Ok(Some)` when its length is exactly one unit, and is
    /// `Invalid` otherwise, never `Ok(None)`.
    pub fn get_opt_property<T: PropertyUnit>(&self, name: &[u8]) -> (r: Result<
        Option<T>,
        DriverError,
    >)
        ensures
            match spec_find_property(self.properties@, name@) {
                None => r == Ok::<Option<T>, DriverError>(None),
                Some(i) => {
                    &&& (self.properties@[i].value@.len() == T::spec_unit_size() ==> r == Ok::<
                        Option<T>,
                        DriverError,
                    >(Some(T::spec_decode(self.properties@[i].value@))))
                    &&& (self.properties@[i].value@.len() != T::spec_unit_size() ==> r == Err::<
                        Option<T>,
                        DriverError,
                    >(DriverError::Invalid))
                },
            },
            (forall|i: int|
                0 <= i < self.properties.len() ==> (#[trigger] self.properties@[i]).name@ != name@)
                ==> r == Ok::<Option<T>, DriverError>(None),
    {
        proof {
            lemma_find_none_iff(self.properties@, name@);
        }
        match self.find_property(name) {
            Some(p) => match p.decode() {
                Ok(v) => Ok(Some(v)),
                Err(e) => Err(e),
            },
            None => Ok(None),
        }
    }

    /// The node's phandle: its "phandle" property as a 32-bit value.
    /// Absent is `NoEntry`; present decodes exactly when it holds four
    /// bytes, and is `Invalid` otherwise.
    pub fn phandle(&self) -> (r: Result<u32, DriverError>)
        ensures
            match spec_find_property(
                self.properties@,
                seq![112u8, 104u8, 97u8, 110u8, 100u8, 108u8, 101u8],
            ) {
                None => r == Err::<u32, DriverError>(DriverError::NoEntry),
                Some(i) => {
                    &&& (self.properties@[i].value@.len() == 4 ==> r == Ok::<u32, DriverError>(
                        <u32 as PropertyUnit>::spec_decode(self.properties@[i].value@),
                    ))
                    &&& (self.properties@[i].value@.len() != 4 ==> r == Err::<u32, DriverError>(
                        DriverError::Invalid,
                    ))
                },
            },
    {
        let name: [u8; 7] = [112, 104, 97, 110, 100, 108, 101];
        proof {
            assert(name@ =~= seq![112u8, 104u8, 97u8, 110u8, 100u8, 108u8, 101u8]);
        }
        self.get_property::<u32>(name.as_slice())
    }
}

/// Walks the children of a node by index.
pub struct NodeIterator {
    /// How many children the node has.
    pub count: usize,
    /// Next child to hand out.
    pub index: usize,
}

impl NodeIterator {
    pub fn new(count: usize) -> (r: NodeIterator)
        ensures
            r.count == count,
            r.index == 0,
    {
        NodeIterator { count, index: 0 }
    }

    /// The next child index, or `None` when the walk is done.
    pub fn next(&mut self) -> (r: Option<usize>)
        ensures
            old(self).index < old(self).count ==> r == Some(old(self).index) && final(self).index
                == old(self).index + 1,
            old(self).index >= old(self).count ==> r is None && *final(self) == *old(self),
            final(self).count == old(self).count,
    {
        if self.index < self.count {
            let i = self.index;
            self.index = self.index + 1;
            Some(i)
        } else {
            None
        }
    }
}

} // verus!
