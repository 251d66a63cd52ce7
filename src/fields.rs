//! Lookup, insertion and removal on field maps held as entry sequences.

use vstd::prelude::*;

use crate::intermediate::{attr_view, fields_view, Attribute};

verus! {

/// Extending a prefix of the entries by one entry extends its map by that entry.
pub proof fn lemma_fields_view_take_step(s: Seq<(String, Attribute)>, n: int)
    requires
        0 <= n < s.len(),
    ensures
        fields_view(s.take(n + 1)) == fields_view(s.take(n)).insert(s[n].0@, attr_view(s[n].1)),
{
    assert(s.take(n + 1).drop_last() =~= s.take(n));
    assert(s.take(n + 1).last() == s[n]);
}

/// Appending an entry sets its name in the map.
pub proof fn lemma_fields_view_push(s: Seq<(String, Attribute)>, e: (String, Attribute))
    ensures
        fields_view(s.push(e)) == fields_view(s).insert(e.0@, attr_view(e.1)),
{
    assert(s.push(e).drop_last() =~= s);
}

/// The attribute that `name` denotes in `entries`, if any.
pub fn lookup_field<'a>(entries: &'a Vec<(String, Attribute)>, name: &String) -> (r: Option<
    &'a Attribute,
>)
    ensures
        match r {
            Some(a) => fields_view(entries@).contains_key(name@) && attr_view(*a)
                == fields_view(entries@)[name@],
            None => !fields_view(entries@).contains_key(name@),
        },
{
    let mut found: Option<&'a Attribute> = None;
    let mut i: usize = 0;
    while i < entries.len()
        invariant
            i <= entries@.len(),
            match found {
                Some(a) => fields_view(entries@.take(i as int)).contains_key(name@) && attr_view(*a)
                    == fields_view(entries@.take(i as int))[name@],
                None => !fields_view(entries@.take(i as int)).contains_key(name@),
            },
        decreases entries@.len() - i,
    {
        proof {
            lemma_fields_view_take_step(entries@, i as int);
        }
        if entries[i].0 == *name {
            found = Some(&entries[i].1);
        }
        i = i + 1;
    }
    assert(entries@.take(i as int) =~= entries@);
    found
}

/// Removes every entry for `name` and hands back the attribute it denoted.
pub fn remove_field(entries: &mut Vec<(String, Attribute)>, name: &String) -> (r: Option<Attribute>)
    ensures
        fields_view(final(entries)@) == fields_view(old(entries)@).remove(name@),
        match r {
            Some(a) => fields_view(old(entries)@).contains_key(name@) && attr_view(a)
                == fields_view(old(entries)@)[name@],
            None => !fields_view(old(entries)@).contains_key(name@),
        },
{
    let ghost orig = entries@;
    let mut rest: Vec<(String, Attribute)> = Vec::new();
    std::mem::swap(entries, &mut rest);
    let mut found: Option<Attribute> = None;
    let ghost mut n: int = 0;
    while rest.len() > 0
        invariant
            0 <= n <= orig.len(),
            rest@ == orig.skip(n),
            fields_view(entries@) == fields_view(orig.take(n)).remove(name@),
            match found {
                Some(a) => fields_view(orig.take(n)).contains_key(name@) && attr_view(a)
                    == fields_view(orig.take(n))[name@],
                None => !fields_view(orig.take(n)).contains_key(name@),
            },
        decreases rest@.len(),
    {
        let e = rest.remove(0);
        proof {
            lemma_fields_view_take_step(orig, n);
            assert(orig.skip(n)[0] == orig[n]);
            assert(rest@ =~= orig.skip(n + 1));
        }
        if e.0 == *name {
            found = Some(e.1);
            proof {
                assert(fields_view(orig.take(n + 1)).remove(name@) =~= fields_view(
                    orig.take(n),
                ).remove(name@));
            }
        } else {
            proof {
                lemma_fields_view_push(entries@, e);
                assert(fields_view(entries@.push(e)) =~= fields_view(orig.take(n + 1)).remove(
                    name@,
                ));
            }
            entries.push(e);
        }
        proof {
            n = n + 1;
        }
    }
    assert(orig.take(n) =~= orig);
    found
}

/// Sets `name` to `attr`, replacing what it denoted before.
pub fn insert_field(entries: &mut Vec<(String, Attribute)>, name: String, attr: Attribute)
    ensures
        fields_view(final(entries)@) == fields_view(old(entries)@).insert(name@, attr_view(attr)),
{
    let _ = remove_field(entries, &name);
    let ghost before = entries@;
    let e = (name, attr);
    entries.push(e);
    proof {
        lemma_fields_view_push(before, e);
        assert(fields_view(entries@) =~= fields_view(old(entries)@).insert(e.0@, attr_view(e.1)));
    }
}

} // verus!
