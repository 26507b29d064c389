use vstd::prelude::*;
use crate::text::chars_of;

verus! {

/// The index at which the last `'/'`-separated segment of `p` begins.
pub open spec fn last_segment_start(p: Seq<char>) -> nat
    decreases p.len(),
{
    if p.len() == 0 {
        0
    } else if p.last() == '/' {
        p.len()
    } else {
        last_segment_start(p.drop_last())
    }
}

pub proof fn lemma_last_segment_start_bound(p: Seq<char>)
    ensures
        last_segment_start(p) <= p.len(),
        last_segment_start(p) > 0 ==> p[last_segment_start(p) - 1] == '/',
        forall|k: int| last_segment_start(p) <= k < p.len() ==> p[k] != '/',
    decreases p.len(),
{
    if p.len() > 0 && p.last() != '/' {
        let t = p.drop_last();
        lemma_last_segment_start_bound(t);
        assert forall|k: int| last_segment_start(p) <= k < p.len() implies p[k] != '/' by {
            if k < t.len() {
                assert(t[k] == p[k]);
            }
        }
        if last_segment_start(p) > 0 {
            assert(t[last_segment_start(p) - 1] == p[last_segment_start(p) - 1]);
        }
    }
}

/// Whether the last component of path `p` is `name`, as `Path::ends_with(name)` decides
/// for a one-component `name` on Unix: empty segments and `.` segments are not components.
pub open spec fn ends_with_component(p: Seq<char>, name: Seq<char>) -> bool
    decreases p.len(),
{
    let i = last_segment_start(p);
    let seg = p.subrange(i as int, p.len() as int);
    if seg.len() == 0 || seg == "."@ {
        if i == 0 {
            false
        } else {
            proof {
                lemma_last_segment_start_bound(p);
            }
            ends_with_component(p.subrange(0, i - 1), name)
        }
    } else {
        seg == name
    }
}

/// Whether a file-system event should reload the configuration: it must create or modify
/// something, and one of its paths must name `config.toml`.
pub open spec fn event_reloads_config(creates_or_modifies: bool, paths: Seq<Seq<char>>) -> bool {
    creates_or_modifies && exists|i: int|
        0 <= i < paths.len() && ends_with_component(#[trigger] paths[i], "config.toml"@)
}

proof fn lemma_segment_start_at(p: Seq<char>, i: int)
    requires
        0 <= i <= p.len(),
        i == 0 || p[i - 1] == '/',
        forall|k: int| i <= k < p.len() ==> p[k] != '/',
    ensures
        last_segment_start(p) == i,
    decreases p.len() - i,
{
    if p.len() > i {
        let t = p.drop_last();
        assert forall|k: int| i <= k < t.len() implies t[k] != '/' by {
            assert(t[k] == p[k]);
        }
        if i > 0 {
            assert(t[i - 1] == p[i - 1]);
        }
        lemma_segment_start_at(t, i);
    }
}

fn segment_equals(v: &Vec<char>, from: usize, to: usize, w: &Vec<char>) -> (res: bool)
    requires
        from <= to <= v@.len(),
    ensures
        res == (v@.subrange(from as int, to as int) == w@),
{
    if to - from != w.len() {
        return false;
    }
    let mut k: usize = 0;
    while k < w.len()
        invariant
            from <= to <= v@.len(),
            to - from == w@.len(),
            k <= w@.len(),
            forall|m: int| 0 <= m < k ==> v@[from + m] == w@[m],
        decreases w@.len() - k,
    {
        if v[from + k] != w[k] {
            assert(v@.subrange(from as int, to as int)[k as int] != w@[k as int]);
            return false;
        }
        k = k + 1;
    }
    assert(v@.subrange(from as int, to as int) =~= w@);
    true
}

/// Whether the last component of `path` is `name` (one component), as
/// `Path::new(path).ends_with(name)` decides on Unix.
pub fn path_ends_with_component(path: &str, name: &str) -> (res: bool)
    ensures
        res == ends_with_component(path@, name@),
{
    let v = chars_of(path);
    let w = chars_of(name);
    let dot = chars_of(".");
    let mut e: usize = v.len();
    assert(v@.subrange(0, e as int) =~= v@);
    loop
        invariant
            e <= v@.len(),
            v@ == path@,
            w@ == name@,
            dot@ == "."@,
            ends_with_component(v@.subrange(0, e as int), name@) == ends_with_component(v@, name@),
        decreases e,
    {
        let ghost p = v@.subrange(0, e as int);
        let mut i: usize = e;
        while i > 0 && v[i - 1] != '/'
            invariant
                i <= e <= v@.len(),
                forall|k: int| i <= k < e ==> v@[k] != '/',
            decreases i,
        {
            i = i - 1;
        }
        proof {
            assert forall|k: int| i <= k < p.len() implies p[k] != '/' by {
                assert(p[k] == v@[k]);
            }
            if i > 0 {
                assert(p[i - 1] == v@[i - 1]);
            }
            lemma_segment_start_at(p, i as int);
            assert(p.subrange(i as int, p.len() as int) =~= v@.subrange(i as int, e as int));
        }
        let ghost seg = p.subrange(i as int, p.len() as int);
        let skip = i == e || segment_equals(&v, i, e, &dot);
        assert(skip == (seg.len() == 0 || seg == "."@));
        if skip {
            if i == 0 {
                assert(!ends_with_component(p, name@));
                return false;
            }
            assert(p.subrange(0, i - 1) =~= v@.subrange(0, i - 1));
            assert(ends_with_component(p, name@) == ends_with_component(p.subrange(0, i - 1), name@));
            e = i - 1;
        } else {
            let same = segment_equals(&v, i, e, &w);
            assert(ends_with_component(p, name@) == (seg == name@));
            return same;
        }
    }
}

/// Whether a file-system event that creates or modifies (`creates_or_modifies`) the given
/// paths should reload the configuration file.
pub fn config_event_reloads(creates_or_modifies: bool, paths: &Vec<String>) -> (res: bool)
    ensures
        res == event_reloads_config(creates_or_modifies, paths@.map_values(|p: String| p@)),
        res == (creates_or_modifies && exists|j: int|
            0 <= j < paths@.len() && ends_with_component(#[trigger] paths@[j]@, "config.toml"@)),
{
    let ghost views = paths@.map_values(|p: String| p@);
    if !creates_or_modifies {
        return false;
    }
    let mut i: usize = 0;
    while i < paths.len()
        invariant
            i <= paths@.len(),
            creates_or_modifies,
            views == paths@.map_values(|p: String| p@),
            forall|k: int| 0 <= k < i ==> !ends_with_component(#[trigger] views[k], "config.toml"@),
        decreases paths@.len() - i,
    {
        let hit = path_ends_with_component(paths[i].as_str(), "config.toml");
        assert(views[i as int] == paths@[i as int]@);
        if hit {
            assert(ends_with_component(views[i as int], "config.toml"@));
            assert(ends_with_component(paths@[i as int]@, "config.toml"@));
            return true;
        }
        i = i + 1;
    }
    assert forall|j: int| 0 <= j < paths@.len() implies !ends_with_component(
        #[trigger] paths@[j]@,
        "config.toml"@,
    ) by {
        assert(views[j] == paths@[j]@);
    }
    false
}

/// A create-or-modify event reloads the configuration whenever any one of its paths, the
/// first as much as any other, has `config.toml` as its last component.
pub proof fn lemma_any_config_path_reloads(paths: Seq<Seq<char>>, i: int)
    requires
        0 <= i < paths.len(),
        ends_with_component(paths[i], "config.toml"@),
    ensures
        event_reloads_config(true, paths),
{
}

/// An event that neither creates nor modifies never reloads, and neither does an event
/// without paths.
pub proof fn lemma_no_reload_without_change_or_paths(creates_or_modifies: bool, paths: Seq<Seq<char>>)
    ensures
        !event_reloads_config(false, paths),
        !event_reloads_config(creates_or_modifies, Seq::<Seq<char>>::empty()),
{
}

/// A one-path event reloads exactly when it creates or modifies and its path has
/// `config.toml` as its last component.
pub proof fn lemma_single_path_event_reloads(creates_or_modifies: bool, p: Seq<char>)
    ensures
        event_reloads_config(creates_or_modifies, seq![p]) == (creates_or_modifies
            && ends_with_component(p, "config.toml"@)),
{
    if creates_or_modifies && ends_with_component(p, "config.toml"@) {
        assert(seq![p][0] == p);
    }
}

/// Paths are weighed one by one: an event with paths reloads exactly when it creates or
/// modifies and either its first path names `config.toml` or the event of its other paths
/// reloads.
pub proof fn lemma_event_reloads_path_by_path(creates_or_modifies: bool, paths: Seq<Seq<char>>)
    requires
        paths.len() > 0,
    ensures
        event_reloads_config(creates_or_modifies, paths) == (creates_or_modifies && (
        ends_with_component(paths[0], "config.toml"@) || event_reloads_config(
            creates_or_modifies,
            paths.drop_first(),
        ))),
{
    let rest = paths.drop_first();
    if event_reloads_config(creates_or_modifies, paths) && !ends_with_component(
        paths[0],
        "config.toml"@,
    ) {
        let i = choose|i: int|
            0 <= i < paths.len() && ends_with_component(#[trigger] paths[i], "config.toml"@);
        assert(rest[i - 1] == paths[i]);
    }
    if creates_or_modifies && event_reloads_config(creates_or_modifies, rest) {
        let i = choose|i: int|
            0 <= i < rest.len() && ends_with_component(#[trigger] rest[i], "config.toml"@);
        assert(paths[i + 1] == rest[i]);
    }
}

/// Joining the paths of two events: the joined event reloads exactly when one of the two
/// reloads.
pub proof fn lemma_joined_events_reload(
    creates_or_modifies: bool,
    a: Seq<Seq<char>>,
    b: Seq<Seq<char>>,
)
    ensures
        event_reloads_config(creates_or_modifies, a + b) == (event_reloads_config(
            creates_or_modifies,
            a,
        ) || event_reloads_config(creates_or_modifies, b)),
{
    let ab = a + b;
    if event_reloads_config(creates_or_modifies, ab) {
        let i = choose|i: int|
            0 <= i < ab.len() && ends_with_component(#[trigger] ab[i], "config.toml"@);
        if i < a.len() {
            assert(a[i] == ab[i]);
        } else {
            assert(b[i - a.len()] == ab[i]);
        }
    }
    if event_reloads_config(creates_or_modifies, a) {
        let i = choose|i: int|
            0 <= i < a.len() && ends_with_component(#[trigger] a[i], "config.toml"@);
        assert(ab[i] == a[i]);
    }
    if event_reloads_config(creates_or_modifies, b) {
        let i = choose|i: int|
            0 <= i < b.len() && ends_with_component(#[trigger] b[i], "config.toml"@);
        assert(ab[i + a.len()] == b[i]);
    }
}

} // verus!
