//! Recognising marker files and the name that they ask for.
use vstd::prelude::*;

verus! {

/// `.mod`: the dot and the marker extension, as bytes.
pub open spec fn marker_suffix() -> Seq<u8> {
    seq![46u8, 109u8, 111u8, 100u8]
}

/// Whether a file name has the marker extension.
///
/// As with `Path::extension`, the extension is what follows the last dot,
/// and a name whose only dot is its first byte has none. Since the suffix
/// holds no other dot, this comes to: the name ends in `.mod` and has at
/// least one byte before it.
pub open spec fn is_marker_name(name: Seq<u8>) -> bool {
    &&& name.len() > marker_suffix().len()
    &&& name.subrange(name.len() - marker_suffix().len(), name.len() as int) == marker_suffix()
}

/// The base name of a marker file: its name without the extension.
pub open spec fn base_of(name: Seq<u8>) -> Seq<u8> {
    name.subrange(0, name.len() - marker_suffix().len())
}

/// The name that a file asks for, if it is a marker.
pub open spec fn marker_base_of(name: Seq<u8>) -> Option<Seq<u8>> {
    if is_marker_name(name) {
        Some(base_of(name))
    } else {
        None
    }
}

/// What the first marker among `children` asks for, in their order.
pub open spec fn first_marker(children: Seq<Seq<u8>>) -> Option<Seq<u8>>
    decreases children.len(),
{
    if children.len() == 0 {
        None
    } else if is_marker_name(children[0]) {
        Some(base_of(children[0]))
    } else {
        first_marker(children.drop_first())
    }
}

/// Returns the base name of `name` if it is a marker file's name.
pub fn marker_base(name: &Vec<u8>) -> (r: Option<Vec<u8>>)
    ensures
        match r {
            Some(b) => marker_base_of(name@) == Some(b@),
            None => marker_base_of(name@) is None,
        },
{
    let n = name.len();
    if n <= 4 {
        return None;
    }
    let k = n - 4;
    if !(name[k] == 46u8 && name[k + 1] == 109u8 && name[k + 2] == 111u8 && name[k + 3] == 100u8) {
        assert(name@.subrange(n - 4, n as int)[0] == name@[k as int]);
        assert(name@.subrange(n - 4, n as int)[1] == name@[k + 1]);
        assert(name@.subrange(n - 4, n as int)[2] == name@[k + 2]);
        assert(name@.subrange(n - 4, n as int)[3] == name@[k + 3]);
        return None;
    }
    assert(name@.subrange(n - 4, n as int) =~= marker_suffix());
    let mut base: Vec<u8> = Vec::new();
    let mut i: usize = 0;
    while i < k
        invariant
            k == n - 4,
            n == name.len(),
            0 <= i <= k,
            base@ =~= name@.subrange(0, i as int),
        decreases k - i,
    {
        base.push(name[i]);
        i = i + 1;
    }
    Some(base)
}

/// Returns the base name of the first marker among `children`, taken in
/// their order, or `None` when none of them is a marker.
pub fn find_marker(children: &Vec<Vec<u8>>) -> (r: Option<Vec<u8>>)
    ensures
        match r {
            Some(b) => first_marker(children@.map_values(|c: Vec<u8>| c@)) == Some(b@),
            None => first_marker(children@.map_values(|c: Vec<u8>| c@)) is None,
        },
{
    let ghost all = children@.map_values(|c: Vec<u8>| c@);
    assert(all.subrange(0, all.len() as int) =~= all);
    let mut i: usize = 0;
    while i < children.len()
        invariant
            0 <= i <= children.len(),
            all == children@.map_values(|c: Vec<u8>| c@),
            first_marker(all) == first_marker(all.subrange(i as int, all.len() as int)),
        decreases children.len() - i,
    {
        let ghost rest = all.subrange(i as int, all.len() as int);
        assert(rest[0] == children@[i as int]@);
        assert(rest.drop_first() =~= all.subrange(i + 1, all.len() as int));
        match marker_base(&children[i]) {
            Some(b) => {
                return Some(b);
            },
            None => {},
        }
        i = i + 1;
    }
    assert(all.subrange(i as int, all.len() as int).len() == 0);
    None
}

} // verus!
