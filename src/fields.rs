use vstd::prelude::*;

verus! {

/// One name/value pair: a request header or a form field.
pub struct Field {
    pub name: String,
    pub value: String,
}

/// The pairs of a field list, as sequences of characters.
pub open spec fn fields_view(fs: Seq<Field>) -> Seq<(Seq<char>, Seq<char>)> {
    fs.map_values(|f: Field| (f.name@, f.value@))
}

/// Position of the first pair named `n` at or after `i`, or -1.
pub open spec fn name_index_from(fs: Seq<(Seq<char>, Seq<char>)>, n: Seq<char>, i: int) -> int
    decreases fs.len() - i,
{
    if i < 0 || i >= fs.len() {
        -1
    } else if fs[i].0 == n {
        i
    } else {
        name_index_from(fs, n, i + 1)
    }
}

/// Sets `n` to `v` in an ordered map: an existing entry keeps its place and
/// takes the new value, a new name goes to the end.
pub open spec fn insert_field(fs: Seq<(Seq<char>, Seq<char>)>, n: Seq<char>, v: Seq<char>) -> Seq<
    (Seq<char>, Seq<char>),
> {
    let k = name_index_from(fs, n, 0);
    if k < 0 {
        fs.push((n, v))
    } else {
        fs.update(k, (n, v))
    }
}

/// Each name occurs at most once.
pub open spec fn names_unique(fs: Seq<(Seq<char>, Seq<char>)>) -> bool {
    forall|i: int, j: int| 0 <= i < j < fs.len() ==> fs[i].0 != fs[j].0
}

/// The value that the map gives to `n`, if any.
pub open spec fn lookup(fs: Seq<(Seq<char>, Seq<char>)>, n: Seq<char>) -> Option<Seq<char>> {
    let k = name_index_from(fs, n, 0);
    if k < 0 {
        None
    } else {
        Some(fs[k].1)
    }
}

pub proof fn lemma_name_index_from(fs: Seq<(Seq<char>, Seq<char>)>, n: Seq<char>, i: int)
    requires
        0 <= i,
    ensures
        name_index_from(fs, n, i) < 0 ==> forall|j: int| i <= j < fs.len() ==> fs[j].0 != n,
        name_index_from(fs, n, i) >= 0 ==> i <= name_index_from(fs, n, i) < fs.len() && fs[name_index_from(fs, n, i)].0 == n
            && forall|j: int| i <= j < name_index_from(fs, n, i) ==> fs[j].0 != n,
    decreases fs.len() - i,
{
    if i < fs.len() && fs[i].0 != n {
        lemma_name_index_from(fs, n, i + 1);
    }
}

/// Inserting keeps the names unique, and the map then gives `v` for `n` and
/// the old value for every other name.
pub proof fn lemma_insert_field(fs: Seq<(Seq<char>, Seq<char>)>, n: Seq<char>, v: Seq<char>)
    requires
        names_unique(fs),
    ensures
        names_unique(insert_field(fs, n, v)),
        lookup(insert_field(fs, n, v), n) == Some(v),
        forall|m: Seq<char>| m != n ==> lookup(insert_field(fs, n, v), m) == lookup(fs, m),
{
    let r = insert_field(fs, n, v);
    lemma_name_index_from(fs, n, 0);
    lemma_name_index_from(r, n, 0);
    let k = name_index_from(fs, n, 0);
    let kr = name_index_from(r, n, 0);
    if k < 0 {
        assert(r[fs.len() as int].0 == n);
        assert(kr == fs.len());
    } else {
        assert(r[k].0 == n);
        assert(kr == k);
    }
    assert forall|i: int, j: int| 0 <= i < j < r.len() implies r[i].0 != r[j].0 by {
        if k < 0 {
            if j == fs.len() {
                assert(fs[i].0 != n);
            }
        }
    }
    assert forall|m: Seq<char>| m != n implies lookup(r, m) == lookup(fs, m) by {
        lemma_name_index_from(fs, m, 0);
        lemma_name_index_from(r, m, 0);
        let a = name_index_from(fs, m, 0);
        let b = name_index_from(r, m, 0);
        if a >= 0 {
            assert(r[a].0 == m);
            if b >= 0 && b != a {
                assert(b < a || b > a);
            }
        } else if b >= 0 {
            assert(r[b].0 == m);
            assert(b < fs.len());
        }
    }
}

/// Position of `name` among the fields, if present.
pub fn find_field(fs: &Vec<Field>, name: &String) -> (r: Option<usize>)
    ensures
        match r {
            Some(k) => k as int == name_index_from(fields_view(fs@), name@, 0),
            None => name_index_from(fields_view(fs@), name@, 0) < 0,
        },
{
    let mut i: usize = 0;
    while i < fs.len()
        invariant
            i <= fs@.len(),
            name_index_from(fields_view(fs@), name@, i as int) == name_index_from(
                fields_view(fs@),
                name@,
                0,
            ),
        decreases fs.len() - i,
    {
        if fs[i].name == *name {
            return Some(i);
        }
        i = i + 1;
    }
    None
}

/// Sets `name` to `value`, keeping the place of an existing entry.
pub fn set_field(fs: &mut Vec<Field>, name: String, value: String)
    ensures
        fields_view(final(fs)@) == insert_field(fields_view(old(fs)@), name@, value@),
{
    let ghost n = name@;
    let ghost v = value@;
    proof {
        lemma_name_index_from(fields_view(fs@), n, 0);
    }
    match find_field(fs, &name) {
        Some(k) => {
            fs.set(k, Field { name, value });
            assert(fields_view(fs@) =~= fields_view(old(fs)@).update(k as int, (n, v)));
        },
        None => {
            fs.push(Field { name, value });
            assert(fields_view(fs@) =~= fields_view(old(fs)@).push((n, v)));
        },
    }
}

} // verus!
