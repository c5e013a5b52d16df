//! Environment-definition files: `NAME=VALUE` records, one per line.

use vstd::prelude::*;
use crate::text::{split_on, join_with, split_str, join_str, lemma_split_nonempty};

verus! {

/// A `(name, value)` pair as characters.
pub type Record = (Seq<char>, Seq<char>);

/// `s` cut at its first `sep`, as `str::split_once` does; `None` where `s`
/// holds no `sep`.
pub open spec fn split_once(s: Seq<char>, sep: char) -> Option<Record> {
    let parts = split_on(s, sep);
    if parts.len() <= 1 {
        None
    } else {
        Some((parts[0], join_with(parts.skip(1), seq![sep])))
    }
}

/// The records of `lines`, skipping empty lines; `None` as soon as a
/// non-empty line holds no `=`.
pub open spec fn records_of(lines: Seq<Seq<char>>) -> Option<Seq<Record>>
    decreases lines.len(),
{
    if lines.len() == 0 {
        Some(Seq::empty())
    } else {
        match records_of(lines.drop_last()) {
            None => None,
            Some(rs) => if lines.last().len() == 0 {
                Some(rs)
            } else {
                match split_once(lines.last(), '=') {
                    None => None,
                    Some(p) => Some(rs.push(p)),
                }
            },
        }
    }
}

/// The records of an environment file's text, split into lines at `\n`.
pub open spec fn env_records(text: Seq<char>) -> Option<Seq<Record>> {
    records_of(split_on(text, '\n'))
}

/// The mapping that `records` build when applied in order: a later record
/// overwrites an earlier one of the same name.
pub open spec fn records_map(records: Seq<Record>) -> Map<Seq<char>, Seq<char>>
    decreases records.len(),
{
    if records.len() == 0 {
        Map::empty()
    } else {
        records_map(records.drop_last()).insert(records.last().0, records.last().1)
    }
}

/// No two records share a name.
pub open spec fn distinct_names(records: Seq<Record>) -> bool {
    forall|i: int, j: int|
        0 <= i < j < records.len() ==> #[trigger] records[i].0 != #[trigger] records[j].0
}

/// The environment overrides an environment file's text defines, if it is
/// well formed.
pub open spec fn env_overrides(text: Seq<char>) -> Option<Map<Seq<char>, Seq<char>>> {
    match env_records(text) {
        None => None,
        Some(rs) => Some(records_map(rs)),
    }
}

proof fn lemma_records_none(lines: Seq<Seq<char>>, k: int)
    requires
        0 <= k <= lines.len(),
        records_of(lines.take(k)) is None,
    ensures
        records_of(lines) is None,
    decreases lines.len(),
{
    if lines.len() == k {
        assert(lines.take(k) =~= lines);
    } else {
        assert(lines.drop_last().take(k) =~= lines.take(k));
        lemma_records_none(lines.drop_last(), k);
    }
}

proof fn lemma_map_update(v: Seq<Record>, k: int, value: Seq<char>)
    requires
        0 <= k < v.len(),
        distinct_names(v),
    ensures
        records_map(v.update(k, (v[k].0, value))) == records_map(v).insert(v[k].0, value),
    decreases v.len(),
{
    let u = v.update(k, (v[k].0, value));
    if k == v.len() - 1 {
        assert(u.drop_last() =~= v.drop_last());
        assert(records_map(u) =~= records_map(v).insert(v[k].0, value));
    } else {
        assert(u.drop_last() =~= v.drop_last().update(k, (v[k].0, value)));
        lemma_map_update(v.drop_last(), k, value);
        assert(v[k].0 != v.last().0);
        assert(records_map(u) =~= records_map(v).insert(v[k].0, value));
    }
}

/// Sets `name` to `value` in `vars`, replacing an earlier value of `name`.
fn set_var(vars: &mut Vec<(String, String)>, name: String, value: String)
    requires
        distinct_names(old(vars).deep_view()),
    ensures
        distinct_names(final(vars).deep_view()),
        records_map(final(vars).deep_view()) == records_map(old(vars).deep_view()).insert(
            name@,
            value@,
        ),
{
    let ghost v0 = vars.deep_view();
    let ghost nv = name@;
    let ghost vv = value@;
    let mut k: usize = 0;
    let mut found = false;
    while k < vars.len()
        invariant
            k <= vars.len(),
            vars.deep_view() == v0,
            name@ == nv,
            distinct_names(v0),
            found ==> k < vars.len() && v0[k as int].0 == nv,
            !found ==> forall|j: int| 0 <= j < k ==> (#[trigger] v0[j]).0 != nv,
        ensures
            vars.deep_view() == v0,
            found ==> k < vars.len() && v0[k as int].0 == nv,
            !found ==> k == vars.len() && forall|j: int| 0 <= j < k ==> (#[trigger] v0[j]).0
                != nv,
        decreases vars.len() - k,
    {
        assert(v0[k as int].0 == vars@[k as int].0@);
        if vars[k].0 == name {
            found = true;
            break;
        }
        k += 1;
    }
    if found {
        vars[k] = (name, value);
        proof {
            assert(vars.deep_view() =~= v0.update(k as int, (v0[k as int].0, vv)));
            assert(forall|j: int|
                0 <= j < v0.len() ==> (#[trigger] vars.deep_view()[j]).0 == v0[j].0);
            lemma_map_update(v0, k as int, vv);
            let w = vars.deep_view();
            assert forall|i: int, j: int| 0 <= i < j < w.len() implies #[trigger] w[i].0
                != #[trigger] w[j].0 by {
                assert(w[i].0 == v0[i].0 && w[j].0 == v0[j].0);
            }
        }
    } else {
        vars.push((name, value));
        proof {
            let w = vars.deep_view();
            assert(w =~= v0.push((nv, vv)));
            assert(w.drop_last() =~= v0);
            assert forall|i: int, j: int| 0 <= i < j < w.len() implies #[trigger] w[i].0
                != #[trigger] w[j].0 by {
                if j == w.len() - 1 {
                    assert(k == v0.len());
                    assert(w[i] == v0[i]);
                    assert(v0[i].0 != nv);
                    assert(w[j].0 == nv);
                } else {
                    assert(w[i] == v0[i] && w[j] == v0[j]);
                }
            }
        }
    }
}

/// `s` cut at its first `=`, if it holds one.
pub fn split_record(s: &str) -> (r: Option<(String, String)>)
    ensures
        r.deep_view() == split_once(s@, '='),
{
    let sep = '=';
    let parts = split_str(s, sep);
    proof {
        lemma_split_nonempty(s@, sep);
    }
    if parts.len() <= 1 {
        return None;
    }
    let mut rest: Vec<String> = Vec::new();
    let mut i: usize = 1;
    while i < parts.len()
        invariant
            1 <= i <= parts.len(),
            rest.deep_view() =~= parts.deep_view().subrange(1, i as int),
        decreases parts.len() - i,
    {
        let ghost prev = rest.deep_view();
        rest.push(parts[i].clone());
        assert(rest.deep_view() =~= prev.push(parts@[i as int]@));
        i += 1;
    }
    let tail = join_str(&rest, "=");
    proof {
        reveal_strlit("=");
        assert("="@ =~= seq![sep]);
        assert(parts.deep_view().skip(1) =~= rest.deep_view());
    }
    Some((parts[0].clone(), tail))
}

/// The environment overrides that `text` defines: `None` where a non-empty
/// line holds no `=`, else one pair per name, with the value of its last
/// record.
pub fn parse_env(text: &str) -> (r: Option<Vec<(String, String)>>)
    ensures
        r is None <==> env_records(text@) is None,
        r matches Some(vars) ==> {
            &&& distinct_names(vars.deep_view())
            &&& env_overrides(text@) == Some(records_map(vars.deep_view()))
        },
{
    let lines = split_str(text, '\n');
    let ghost lv = lines.deep_view();
    let mut vars: Vec<(String, String)> = Vec::new();
    let ghost mut recs: Seq<Record> = Seq::empty();
    let mut i: usize = 0;
    proof {
        assert(lv.take(0) =~= Seq::<Seq<char>>::empty());
        assert(vars.deep_view() =~= Seq::<Record>::empty());
    }
    while i < lines.len()
        invariant
            i <= lines.len(),
            lv == lines.deep_view(),
            lv == split_on(text@, '\n'),
            records_of(lv.take(i as int)) == Some(recs),
            distinct_names(vars.deep_view()),
            records_map(vars.deep_view()) == records_map(recs),
        decreases lines.len() - i,
    {
        let line = lines[i].as_str();
        proof {
            assert(lv.take(i + 1).drop_last() =~= lv.take(i as int));
            assert(lv.take(i + 1).last() == line@);
        }
        if line.unicode_len() != 0 {
            match split_record(line) {
                None => {
                    proof {
                        lemma_records_none(lv, i + 1);
                    }
                    return None;
                },
                Some((name, value)) => {
                    let ghost rec = (name@, value@);
                    set_var(&mut vars, name, value);
                    proof {
                        let old_recs = recs;
                        recs = recs.push(rec);
                        assert(recs.drop_last() =~= old_recs);
                    }
                },
            }
        }
        i += 1;
    }
    proof {
        assert(lv.take(lines.len() as int) =~= lv);
    }
    Some(vars)
}

} // verus!
