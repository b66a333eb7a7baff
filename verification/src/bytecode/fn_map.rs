use vstd::prelude::*;
use crate::bytecode::serializable::{
    BytecodeSerializable, all_writable, lemma_seq_roundtrip, read_vec, spec_read_seq, spec_seq_bytecode, views, write_all,
};
use crate::name_map::{NameMap, distinct_names, insert_entry};

verus! {

/// The entries of a map built by inserting `entries` one after the other
/// (a name inserted again keeps its first position and takes the new slot).
pub open spec fn spec_map_from(entries: Seq<(Seq<char>, u32)>) -> Seq<(Seq<char>, u32)>
    decreases entries.len(),
{
    if entries.len() == 0 {
        Seq::empty()
    } else {
        insert_entry(spec_map_from(entries.drop_last()), entries.last().0, entries.last().1)
    }
}

/// Inserting entries whose names are distinct keeps them as they are.
pub proof fn lemma_map_from_distinct(entries: Seq<(Seq<char>, u32)>)
    requires
        distinct_names(entries),
    ensures
        spec_map_from(entries) == entries,
    decreases entries.len(),
{
    if entries.len() > 0 {
        let init = entries.drop_last();
        assert(distinct_names(init));
        lemma_map_from_distinct(init);
        let n = entries.last().0;
        assert forall|i: int| 0 <= i < init.len() implies init[i].0 != n by {
            assert(entries[i].0 != entries[entries.len() - 1].0);
        }
        assert(init.push(entries.last()) =~= entries);
    }
}

/// Reading back the entries a function map wrote gives the same map, with
/// the cursor after them, whatever bytes stand before and after: the
/// entries come back in order and, their names being distinct, inserting
/// them again keeps them as they were.
pub proof fn lemma_fn_map_roundtrip(entries: Seq<(Seq<char>, u32)>, prefix: Seq<u8>, suffix: Seq<u8>)
    requires
        distinct_names(entries),
        all_writable::<(String, u32)>(entries),
    ensures
        spec_read_seq::<(String, u32)>(
            prefix + spec_seq_bytecode::<(String, u32)>(entries) + suffix,
            prefix.len() as int,
            entries.len(),
        ) == Ok::<(Seq<(Seq<char>, u32)>, int), Seq<char>>(
            (entries, (prefix.len() + spec_seq_bytecode::<(String, u32)>(entries).len()) as int),
        ),
        spec_map_from(entries) == entries,
{
    lemma_seq_roundtrip::<(String, u32)>(entries, prefix, suffix);
    lemma_map_from_distinct(entries);
}

/// Writes each entry of a function map: its name, then its slot.
pub fn write_fn_map_bytecode(fn_map: &NameMap, buffer: &mut Vec<u8>)
    requires
        all_writable::<(String, u32)>(fn_map.entries()),
    ensures
        final(buffer)@ == old(buffer)@ + spec_seq_bytecode::<(String, u32)>(fn_map.entries()),
{
    let s = fn_map.as_slice();
    assert(views(s@) =~= fn_map.entries());
    write_all(s, buffer);
}

/// Reads `count` entries and builds a function map from them.
pub fn read_fn_map_bytecode(bytes: &[u8], cursor: &mut usize, count: usize) -> (r: Result<NameMap, String>)
    ensures
        match spec_read_seq::<(String, u32)>(bytes@, *old(cursor) as int, count as nat) {
            Ok((es, c)) => r matches Ok(m) && m.wf() && m.entries() == spec_map_from(es) && *final(cursor) as int == c,
            Err(e) => r matches Err(x) && x@ == e,
        },
{
    let entries = read_vec::<(String, u32)>(bytes, cursor, count)?;
    let ghost es = views(entries@);
    let mut fn_map = NameMap::new();
    let mut i: usize = 0;
    let n = entries.len();
    assert(es.take(0) =~= Seq::<(Seq<char>, u32)>::empty());
    while i < n
        invariant
            n == entries@.len(),
            es == views(entries@),
            i <= n,
            fn_map.wf(),
            fn_map.entries() == spec_map_from(es.take(i as int)),
        decreases n - i,
    {
        let name = entries[i].0.clone();
        let slot = entries[i].1;
        fn_map.insert(name, slot);
        proof {
            assert(es.take(i + 1).drop_last() =~= es.take(i as int));
            assert(es.take(i + 1).last() == es[i as int]);
        }
        i = i + 1;
    }
    assert(es.take(n as int) =~= es);
    Ok(fn_map)
}

} // verus!
