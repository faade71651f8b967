//! The application and process lists shown to the user: which entries are
//! listed (no updates or system processes, each name once) and their order
//! (by lowercase name).

use vstd::multiset::Multiset;
use vstd::prelude::*;

use crate::records::AppInfo;
use crate::text::{chars_of, contains_text, has_prefix, is_substring, lower_of, lowercase, same_text, starts_with_text};

verus! {

/// Code-point order on texts, as `str`'s `Ord` compares them.
pub open spec fn text_le(a: Seq<char>, b: Seq<char>) -> bool
    decreases a.len(),
{
    if a.len() == 0 {
        true
    } else if b.len() == 0 {
        false
    } else if (a[0] as u32) != (b[0] as u32) {
        (a[0] as u32) < (b[0] as u32)
    } else {
        text_le(a.drop_first(), b.drop_first())
    }
}

pub proof fn lemma_text_le_total(a: Seq<char>, b: Seq<char>)
    ensures
        text_le(a, b) || text_le(b, a),
    decreases a.len(),
{
    if a.len() > 0 && b.len() > 0 && (a[0] as u32) == (b[0] as u32) {
        lemma_text_le_total(a.drop_first(), b.drop_first());
    }
}

pub proof fn lemma_text_le_transitive(a: Seq<char>, b: Seq<char>, c: Seq<char>)
    requires
        text_le(a, b),
        text_le(b, c),
    ensures
        text_le(a, c),
    decreases a.len(),
{
    if a.len() > 0 && b.len() > 0 && c.len() > 0 && (a[0] as u32) == (b[0] as u32) && (b[0] as u32) == (c[0] as u32) {
        lemma_text_le_transitive(a.drop_first(), b.drop_first(), c.drop_first());
    }
}

/// Whether `a` comes no later than `b` in code-point order.
pub fn text_le_exec(a: &str, b: &str) -> (r: bool)
    ensures
        r == text_le(a@, b@),
{
    let x = chars_of(a);
    let y = chars_of(b);
    let mut i: usize = 0;
    assert(a@.skip(0) =~= a@);
    assert(b@.skip(0) =~= b@);
    loop
        invariant
            x@ == a@,
            y@ == b@,
            i <= x.len(),
            i <= y.len(),
            text_le(a@, b@) == text_le(a@.skip(i as int), b@.skip(i as int)),
        decreases x.len() - i,
    {
        if i == x.len() {
            return true;
        }
        if i == y.len() {
            return false;
        }
        let cx = x[i] as u32;
        let cy = y[i] as u32;
        if cx != cy {
            return cx < cy;
        }
        assert(a@.skip(i as int).drop_first() =~= a@.skip(i + 1));
        assert(b@.skip(i as int).drop_first() =~= b@.skip(i + 1));
        i = i + 1;
    }
}

/// The entries are in order of their lowercase names.
pub open spec fn sorted_by_folded_name(s: Seq<AppInfo>) -> bool {
    forall|i: int, j: int|
        0 <= i < j < s.len() ==> text_le(lower_of(#[trigger] s[i].name@), lower_of(#[trigger] s[j].name@))
}

/// The same entries, each as often as given, in order of their lowercase
/// names.
pub fn sort_by_folded_name(entries: Vec<AppInfo>) -> (r: Vec<AppInfo>)
    ensures
        r@.to_multiset() == entries@.to_multiset(),
        sorted_by_folded_name(r@),
{
    broadcast use vstd::seq_lib::group_to_multiset_ensures;
    broadcast use vstd::multiset::group_multiset_axioms;

    let ghost all = entries@;
    let mut rest = entries;
    let mut out: Vec<AppInfo> = Vec::new();
    let mut keys: Vec<String> = Vec::new();
    assert(out@.to_multiset().add(rest@.to_multiset()) =~= all.to_multiset());
    while rest.len() > 0
        invariant
            out@.to_multiset().add(rest@.to_multiset()) == all.to_multiset(),
            keys.len() == out.len(),
            forall|k: int| 0 <= k < keys.len() ==> (#[trigger] keys@[k])@ == lower_of(out@[k].name@),
            sorted_by_folded_name(out@),
        decreases rest.len(),
    {
        let ghost rest0 = rest@;
        let x = rest.remove(0);
        let kx = lowercase(x.name.as_str());
        let mut p: usize = 0;
        loop
            invariant
                p <= out.len(),
                keys.len() == out.len(),
                forall|k: int| 0 <= k < keys.len() ==> (#[trigger] keys@[k])@ == lower_of(out@[k].name@),
                forall|k: int| 0 <= k < p ==> text_le(lower_of(#[trigger] out@[k].name@), kx@),
            ensures
                p <= out.len(),
                keys.len() == out.len(),
                forall|k: int| 0 <= k < keys.len() ==> (#[trigger] keys@[k])@ == lower_of(out@[k].name@),
                forall|k: int| 0 <= k < p ==> text_le(lower_of(#[trigger] out@[k].name@), kx@),
                p == out.len() || !text_le(keys@[p as int]@, kx@),
            decreases out.len() - p,
        {
            if p == out.len() {
                break;
            }
            if !text_le_exec(keys[p].as_str(), kx.as_str()) {
                break;
            }
            p = p + 1;
        }
        proof {
            if p < out.len() {
                assert(!text_le(lower_of(out@[p as int].name@), kx@));
                lemma_text_le_total(lower_of(out@[p as int].name@), kx@);
                assert forall|k: int| p <= k < out.len() implies text_le(kx@, lower_of(#[trigger] out@[k].name@)) by {
                    if k > p {
                        lemma_text_le_transitive(kx@, lower_of(out@[p as int].name@), lower_of(out@[k].name@));
                    }
                }
            }
        }
        let ghost out0 = out@;
        let ghost keys0 = keys@;
        out.insert(p, x);
        keys.insert(p, kx);
        proof {
            assert(rest@ == rest0.remove(0));
            assert(out@ == out0.insert(p as int, rest0[0]));
            vstd::seq_lib::to_multiset_insert(out0, p as int, rest0[0]);
            vstd::seq_lib::to_multiset_remove(rest0, 0);
            assert(out@.to_multiset() == out0.to_multiset().insert(rest0[0]));
            assert(rest@.to_multiset() == rest0.to_multiset().remove(rest0[0]));
            assert(rest0.contains(rest0[0]));
            vstd::seq_lib::to_multiset_contains(rest0, rest0[0]);
            assert(rest0.to_multiset().count(rest0[0]) > 0);
            assert(out@.to_multiset().add(rest@.to_multiset()) =~= out0.to_multiset().add(rest0.to_multiset()));
            assert forall|k: int| 0 <= k < keys.len() implies (#[trigger] keys@[k])@ == lower_of(out@[k].name@) by {
                if k < p {
                    assert(keys@[k] == keys0[k] && out@[k] == out0[k]);
                } else if k > p {
                    assert(keys@[k] == keys0[k - 1] && out@[k] == out0[k - 1]);
                }
            }
            assert forall|i: int, j: int| 0 <= i < j < out@.len() implies text_le(lower_of(#[trigger] out@[i].name@), lower_of(#[trigger] out@[j].name@)) by {
                if j < p {
                    assert(out@[i] == out0[i] && out@[j] == out0[j]);
                } else if j == p {
                    assert(out@[i] == out0[i]);
                } else if i == p {
                    assert(out@[j] == out0[j - 1]);
                } else if i < p {
                    assert(out@[i] == out0[i] && out@[j] == out0[j - 1]);
                    lemma_text_le_transitive(lower_of(out0[i].name@), kx@, lower_of(out0[j - 1].name@));
                } else {
                    assert(out@[i] == out0[i - 1] && out@[j] == out0[j - 1]);
                }
            }
        }
    }
    assert(rest@.to_multiset() =~= Multiset::<AppInfo>::empty());
    assert(out@.to_multiset().add(rest@.to_multiset()) =~= out@.to_multiset());
    out
}

/// Which list is being built.
#[derive(Clone, Copy, Debug, PartialEq, Eq, Structural)]
pub enum Listing {
    /// Installed applications.
    Installed,
    /// Running processes.
    Running,
}

/// A name that the list leaves out: for installed applications, updates,
/// hotfixes and KB patches; for running processes, unnamed entries and
/// `svchost` and `System` processes.
pub open spec fn left_out(listing: Listing, name: Seq<char>) -> bool {
    match listing {
        Listing::Installed => is_substring("Update"@, name) || is_substring("Hotfix"@, name)
            || has_prefix(name, "KB"@),
        Listing::Running => name.len() == 0 || has_prefix(name, "svchost"@) || has_prefix(
            name,
            "System"@,
        ),
    }
}

/// Some entry of `kept` has the name `name`.
pub open spec fn name_taken(kept: Seq<AppInfo>, name: Seq<char>) -> bool {
    exists|k: int| 0 <= k < kept.len() && (#[trigger] kept[k]).name@ == name
}

/// The entries listed, in the order found: each entry whose name is not left
/// out and has not been listed before.
pub open spec fn listed(listing: Listing, entries: Seq<AppInfo>) -> Seq<AppInfo>
    decreases entries.len(),
{
    if entries.len() == 0 {
        seq![]
    } else {
        let prev = listed(listing, entries.drop_last());
        let e = entries.last();
        if left_out(listing, e.name@) || name_taken(prev, e.name@) {
            prev
        } else {
            prev.push(e)
        }
    }
}

/// Whether `listing` leaves out an entry named `name`.
pub fn is_left_out(listing: Listing, name: &str) -> (r: bool)
    ensures
        r == left_out(listing, name@),
{
    match listing {
        Listing::Installed => contains_text(name, "Update") || contains_text(name, "Hotfix")
            || starts_with_text(name, "KB"),
        Listing::Running => chars_of(name).len() == 0 || starts_with_text(name, "svchost")
            || starts_with_text(name, "System"),
    }
}

fn is_name_taken(kept: &Vec<AppInfo>, name: &str) -> (r: bool)
    ensures
        r == name_taken(kept@, name@),
{
    let mut k: usize = 0;
    while k < kept.len()
        invariant
            k <= kept.len(),
            forall|j: int| 0 <= j < k ==> (#[trigger] kept@[j]).name@ != name@,
        decreases kept.len() - k,
    {
        if same_text(kept[k].name.as_str(), name) {
            return true;
        }
        k = k + 1;
    }
    false
}

/// The entries that `listing` shows, unsorted: in the order found, without
/// the names it leaves out, each name once (its first entry).
pub fn select_entries(listing: Listing, entries: Vec<AppInfo>) -> (r: Vec<AppInfo>)
    ensures
        r@ == listed(listing, entries@),
{
    let ghost all = entries@;
    let mut rest = entries;
    let mut kept: Vec<AppInfo> = Vec::new();
    let ghost done: int = 0;
    assert(listed(listing, all.take(0)) == Seq::<AppInfo>::empty());
    while rest.len() > 0
        invariant
            0 <= done <= all.len(),
            rest@ == all.skip(done),
            kept@ == listed(listing, all.take(done)),
        decreases rest.len(),
    {
        let e = rest.remove(0);
        proof {
            assert(e == all[done]);
            assert(all.take(done + 1).drop_last() =~= all.take(done));
            assert(all.take(done + 1).last() == all[done]);
            assert(rest@ =~= all.skip(done + 1));
        }
        if !is_left_out(listing, e.name.as_str()) && !is_name_taken(&kept, e.name.as_str()) {
            kept.push(e);
        }
        proof {
            done = done + 1;
        }
    }
    assert(all.take(done) =~= all);
    kept
}

/// The installed-application list: entries as `select_entries` keeps them
/// for `Listing::Installed`, in order of their lowercase names.
pub fn select_installed_apps(entries: Vec<AppInfo>) -> (r: Vec<AppInfo>)
    ensures
        r@.to_multiset() == listed(Listing::Installed, entries@).to_multiset(),
        sorted_by_folded_name(r@),
{
    let kept = select_entries(Listing::Installed, entries);
    sort_by_folded_name(kept)
}

/// The running-process list: entries as `select_entries` keeps them for
/// `Listing::Running`, in order of their lowercase names.
pub fn select_running_processes(entries: Vec<AppInfo>) -> (r: Vec<AppInfo>)
    ensures
        r@.to_multiset() == listed(Listing::Running, entries@).to_multiset(),
        sorted_by_folded_name(r@),
{
    let kept = select_entries(Listing::Running, entries);
    sort_by_folded_name(kept)
}

} // verus!
