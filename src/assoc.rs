use vstd::prelude::*;

verus! {

/// The map that a list of name/value pairs stands for: a later pair
/// overrides an earlier one with the same name.
pub open spec fn pairs_map(s: Seq<(String, String)>) -> Map<Seq<char>, Seq<char>>
    decreases s.len(),
{
    if s.len() == 0 {
        Map::empty()
    } else {
        pairs_map(s.drop_last()).insert(s.last().0@, s.last().1@)
    }
}

/// The text of each string of a list.
pub open spec fn strings_of(v: Seq<String>) -> Seq<Seq<char>> {
    v.map_values(|s: String| s@)
}

/// The value that `m` gives `k`, if any.
pub open spec fn opt_lookup(m: Map<Seq<char>, Seq<char>>, k: Seq<char>) -> Option<Seq<char>> {
    if m.contains_key(k) {
        Some(m[k])
    } else {
        None
    }
}

/// The text of an optional string.
pub open spec fn opt_text(o: Option<String>) -> Option<Seq<char>> {
    match o {
        Some(s) => Some(s@),
        None => None,
    }
}

/// Copies a list of strings.
pub fn copy_strings(v: &Vec<String>) -> (r: Vec<String>)
    ensures
        strings_of(r@) == strings_of(v@),
{
    let mut r: Vec<String> = Vec::new();
    let mut i: usize = 0;
    while i < v.len()
        invariant
            i <= v.len(),
            r@.len() == i,
            forall|j: int| 0 <= j < i ==> r@[j]@ == v@[j]@,
        decreases v.len() - i,
    {
        r.push(v[i].clone());
        i = i + 1;
    }
    assert(strings_of(r@) =~= strings_of(v@));
    r
}

/// Looks `name` up in a list of pairs; the last pair with that name counts.
pub fn lookup_pair<'a>(s: &'a Vec<(String, String)>, name: &String) -> (r: Option<&'a String>)
    ensures
        r is Some == pairs_map(s@).contains_key(name@),
        r is Some ==> r.unwrap()@ == pairs_map(s@)[name@],
{
    let mut found: Option<&String> = None;
    let mut i: usize = 0;
    while i < s.len()
        invariant
            i <= s.len(),
            found is Some == pairs_map(s@.take(i as int)).contains_key(name@),
            found is Some ==> found.unwrap()@ == pairs_map(s@.take(i as int))[name@],
        decreases s.len() - i,
    {
        assert(s@.take(i + 1).drop_last() =~= s@.take(i as int));
        if s[i].0 == *name {
            found = Some(&s[i].1);
        }
        i = i + 1;
    }
    assert(s@.take(s.len() as int) =~= s@);
    found
}

} // verus!
