//! Reconciliation of a local image directory against the remote catalog.

use vstd::prelude::*;

verus! {

/// One entry of the remote catalog: a file name and where to download it from.
pub struct ImageRecord {
    pub filename: String,
    pub download_link: String,
}

/// What one reconciliation cycle has to do.
pub struct ReconciliationPlan {
    /// Catalog entries whose file name is absent from the local directory.
    pub to_download: Vec<ImageRecord>,
    /// Local file names that the catalog does not list.
    pub to_delete: Vec<String>,
}

/// The file names of a catalog.
pub open spec fn catalog_names(remote: Seq<ImageRecord>) -> Set<Seq<char>> {
    Set::new(|name: Seq<char>| exists|i: int| 0 <= i < remote.len() && remote[i].filename@ == name)
}

/// The file names of a local inventory.
pub open spec fn inventory_names(local: Seq<String>) -> Set<Seq<char>> {
    Set::new(|name: Seq<char>| exists|i: int| 0 <= i < local.len() && local[i]@ == name)
}

/// The catalog entries to download: those whose name the inventory lacks, in catalog order.
pub open spec fn downloads(remote: Seq<ImageRecord>, local: Seq<String>) -> Seq<ImageRecord>
    decreases remote.len(),
{
    if remote.len() == 0 {
        Seq::empty()
    } else {
        let rest = downloads(remote.drop_last(), local);
        if inventory_names(local).contains(remote.last().filename@) {
            rest
        } else {
            rest.push(remote.last())
        }
    }
}

/// The local names to delete: those the catalog lacks, in inventory order.
pub open spec fn deletions(remote: Seq<ImageRecord>, local: Seq<String>) -> Seq<String>
    decreases local.len(),
{
    if local.len() == 0 {
        Seq::empty()
    } else {
        let rest = deletions(remote, local.drop_last());
        if catalog_names(remote).contains(local.last()@) {
            rest
        } else {
            rest.push(local.last())
        }
    }
}

/// Whether `name` equals one of `local`.
fn inventory_contains(local: &Vec<String>, name: &String) -> (r: bool)
    ensures
        r == inventory_names(local@).contains(name@),
{
    let mut i: usize = 0;
    while i < local.len()
        invariant
            i <= local@.len(),
            forall|j: int| 0 <= j < i ==> local@[j]@ != name@,
        decreases local@.len() - i,
    {
        if local[i] == *name {
            return true;
        }
        i += 1;
    }
    false
}

/// Whether `name` is the file name of one of `remote`.
fn catalog_contains(remote: &Vec<ImageRecord>, name: &String) -> (r: bool)
    ensures
        r == catalog_names(remote@).contains(name@),
{
    let mut i: usize = 0;
    while i < remote.len()
        invariant
            i <= remote@.len(),
            forall|j: int| 0 <= j < i ==> remote@[j].filename@ != name@,
        decreases remote@.len() - i,
    {
        if remote[i].filename == *name {
            return true;
        }
        i += 1;
    }
    false
}

/// Diffs the remote catalog against the local inventory, by exact file name.
pub fn plan_reconciliation(remote: &Vec<ImageRecord>, local: &Vec<String>) -> (plan:
    ReconciliationPlan)
    ensures
        plan.to_download@ == downloads(remote@, local@),
        plan.to_delete@ == deletions(remote@, local@),
{
    let mut to_download: Vec<ImageRecord> = Vec::new();
    let mut i: usize = 0;
    while i < remote.len()
        invariant
            i <= remote@.len(),
            to_download@ == downloads(remote@.subrange(0, i as int), local@),
        decreases remote@.len() - i,
    {
        let record = &remote[i];
        proof {
            let s = remote@.subrange(0, i + 1);
            assert(s.drop_last() =~= remote@.subrange(0, i as int));
        }
        if !inventory_contains(local, &record.filename) {
            to_download.push(
                ImageRecord {
                    filename: record.filename.clone(),
                    download_link: record.download_link.clone(),
                },
            );
        }
        i += 1;
    }
    assert(remote@.subrange(0, remote@.len() as int) =~= remote@);
    let mut to_delete: Vec<String> = Vec::new();
    let mut j: usize = 0;
    while j < local.len()
        invariant
            j <= local@.len(),
            to_delete@ == deletions(remote@, local@.subrange(0, j as int)),
        decreases local@.len() - j,
    {
        let name = &local[j];
        proof {
            let s = local@.subrange(0, j + 1);
            assert(s.drop_last() =~= local@.subrange(0, j as int));
        }
        if !catalog_contains(remote, name) {
            to_delete.push(name.clone());
        }
        j += 1;
    }
    assert(local@.subrange(0, local@.len() as int) =~= local@);
    ReconciliationPlan { to_download, to_delete }
}

/// The names a directory holds once a plan has been carried out in full:
/// the inventory without the deleted names, with the downloaded ones.
pub open spec fn names_after_sync(remote: Seq<ImageRecord>, local: Seq<String>) -> Set<Seq<char>> {
    inventory_names(local).difference(inventory_names(deletions(remote, local))).union(
        catalog_names(downloads(remote, local)),
    )
}

proof fn lemma_downloads_members(remote: Seq<ImageRecord>, local: Seq<String>)
    ensures
        forall|r: ImageRecord|
            downloads(remote, local).contains(r) <==> (remote.contains(r)
                && !inventory_names(local).contains(r.filename@)),
    decreases remote.len(),
{
    if remote.len() > 0 {
        let init = remote.drop_last();
        lemma_downloads_members(init, local);
        assert(remote =~= init.push(remote.last()));
        assert forall|r: ImageRecord| remote.contains(r) <==> (init.contains(r) || r
            == remote.last()) by {
            if remote.contains(r) {
                let k = choose|k: int| 0 <= k < remote.len() && remote[k] == r;
                if k < init.len() {
                    assert(init[k] == r);
                }
            }
            if init.contains(r) {
                let k = choose|k: int| 0 <= k < init.len() && init[k] == r;
                assert(remote[k] == r);
            }
            if r == remote.last() {
                assert(remote[remote.len() - 1] == r);
            }
        }
        let rest = downloads(init, local);
        assert forall|r: ImageRecord| rest.push(remote.last()).contains(r) <==> (rest.contains(r)
            || r == remote.last()) by {
            if rest.push(remote.last()).contains(r) {
                let k = choose|k: int|
                    0 <= k < rest.push(remote.last()).len() && rest.push(remote.last())[k] == r;
                if k < rest.len() {
                    assert(rest[k] == r);
                }
            }
            if rest.contains(r) {
                let k = choose|k: int| 0 <= k < rest.len() && rest[k] == r;
                assert(rest.push(remote.last())[k] == r);
            }
            if r == remote.last() {
                assert(rest.push(remote.last())[rest.len() as int] == r);
            }
        }
    }
}

proof fn lemma_deletions_members(remote: Seq<ImageRecord>, local: Seq<String>)
    ensures
        forall|s: String|
            deletions(remote, local).contains(s) <==> (local.contains(s) && !catalog_names(
                remote,
            ).contains(s@)),
    decreases local.len(),
{
    if local.len() > 0 {
        let init = local.drop_last();
        lemma_deletions_members(remote, init);
        assert forall|s: String| local.contains(s) <==> (init.contains(s) || s == local.last()) by {
            if local.contains(s) {
                let k = choose|k: int| 0 <= k < local.len() && local[k] == s;
                if k < init.len() {
                    assert(init[k] == s);
                }
            }
            if init.contains(s) {
                let k = choose|k: int| 0 <= k < init.len() && init[k] == s;
                assert(local[k] == s);
            }
            if s == local.last() {
                assert(local[local.len() - 1] == s);
            }
        }
        let rest = deletions(remote, init);
        assert forall|s: String| rest.push(local.last()).contains(s) <==> (rest.contains(s) || s
            == local.last()) by {
            if rest.push(local.last()).contains(s) {
                let k = choose|k: int|
                    0 <= k < rest.push(local.last()).len() && rest.push(local.last())[k] == s;
                if k < rest.len() {
                    assert(rest[k] == s);
                }
            }
            if rest.contains(s) {
                let k = choose|k: int| 0 <= k < rest.len() && rest[k] == s;
                assert(rest.push(local.last())[k] == s);
            }
            if s == local.last() {
                assert(rest.push(local.last())[rest.len() as int] == s);
            }
        }
    }
}

/// The plan moves each name at most one way: the entries to download are exactly the
/// catalog's entries whose name the inventory lacks, the names to delete are exactly the
/// inventory's names that the catalog lacks, and no name is in both.
pub proof fn lemma_plan_is_set_difference(remote: Seq<ImageRecord>, local: Seq<String>)
    ensures
        forall|r: ImageRecord|
            downloads(remote, local).contains(r) <==> (remote.contains(r)
                && !inventory_names(local).contains(r.filename@)),
        forall|s: String|
            deletions(remote, local).contains(s) <==> (local.contains(s) && !catalog_names(
                remote,
            ).contains(s@)),
        catalog_names(downloads(remote, local)) == catalog_names(remote).difference(
            inventory_names(local),
        ),
        inventory_names(deletions(remote, local)) == inventory_names(local).difference(
            catalog_names(remote),
        ),
        catalog_names(downloads(remote, local)).disjoint(inventory_names(deletions(remote, local))),
{
    lemma_downloads_members(remote, local);
    lemma_deletions_members(remote, local);
    let dl = downloads(remote, local);
    let de = deletions(remote, local);
    assert forall|name: Seq<char>|
        catalog_names(dl).contains(name) <==> (catalog_names(remote).contains(name)
            && !inventory_names(local).contains(name)) by {
        if catalog_names(dl).contains(name) {
            let k = choose|k: int| 0 <= k < dl.len() && dl[k].filename@ == name;
            assert(dl.contains(dl[k]));
            assert(remote.contains(dl[k]));
            let m = choose|m: int| 0 <= m < remote.len() && remote[m] == dl[k];
            assert(remote[m].filename@ == name);
        }
        if catalog_names(remote).contains(name) && !inventory_names(local).contains(name) {
            let k = choose|k: int| 0 <= k < remote.len() && remote[k].filename@ == name;
            assert(remote.contains(remote[k]));
            assert(dl.contains(remote[k]));
            let m = choose|m: int| 0 <= m < dl.len() && dl[m] == remote[k];
            assert(dl[m].filename@ == name);
        }
    }
    assert(catalog_names(dl) =~= catalog_names(remote).difference(inventory_names(local)));
    assert forall|name: Seq<char>|
        inventory_names(de).contains(name) <==> (inventory_names(local).contains(name)
            && !catalog_names(remote).contains(name)) by {
        if inventory_names(de).contains(name) {
            let k = choose|k: int| 0 <= k < de.len() && de[k]@ == name;
            assert(de.contains(de[k]));
            assert(local.contains(de[k]));
            let m = choose|m: int| 0 <= m < local.len() && local[m] == de[k];
            assert(local[m]@ == name);
        }
        if inventory_names(local).contains(name) && !catalog_names(remote).contains(name) {
            let k = choose|k: int| 0 <= k < local.len() && local[k]@ == name;
            assert(local.contains(local[k]));
            assert(de.contains(local[k]));
            let m = choose|m: int| 0 <= m < de.len() && de[m] == local[k];
            assert(de[m]@ == name);
        }
    }
    assert(inventory_names(de) =~= inventory_names(local).difference(catalog_names(remote)));
}

proof fn lemma_nothing_to_download(remote: Seq<ImageRecord>, local: Seq<String>)
    requires
        catalog_names(remote).subset_of(inventory_names(local)),
    ensures
        downloads(remote, local) == Seq::<ImageRecord>::empty(),
    decreases remote.len(),
{
    if remote.len() > 0 {
        let init = remote.drop_last();
        assert forall|name: Seq<char>| catalog_names(init).contains(name) implies catalog_names(
            remote,
        ).contains(name) by {
            let k = choose|k: int| 0 <= k < init.len() && init[k].filename@ == name;
            assert(remote[k] == init[k]);
        }
        lemma_nothing_to_download(init, local);
        assert(catalog_names(remote).contains(remote[remote.len() - 1].filename@));
    }
}

proof fn lemma_nothing_to_delete(remote: Seq<ImageRecord>, local: Seq<String>)
    requires
        inventory_names(local).subset_of(catalog_names(remote)),
    ensures
        deletions(remote, local) == Seq::<String>::empty(),
    decreases local.len(),
{
    if local.len() > 0 {
        let init = local.drop_last();
        assert forall|name: Seq<char>| inventory_names(init).contains(name) implies inventory_names(
            local,
        ).contains(name) by {
            let k = choose|k: int| 0 <= k < init.len() && init[k]@ == name;
            assert(local[k] == init[k]);
        }
        lemma_nothing_to_delete(remote, init);
        assert(inventory_names(local).contains(local[local.len() - 1]@));
    }
}

/// Reconciling again, against an unchanged catalog, a directory on which a plan was
/// carried out in full finds nothing to download and nothing to delete.
pub proof fn lemma_second_sync_is_empty(
    remote: Seq<ImageRecord>,
    local: Seq<String>,
    local_after: Seq<String>,
)
    requires
        inventory_names(local_after) == names_after_sync(remote, local),
    ensures
        downloads(remote, local_after) == Seq::<ImageRecord>::empty(),
        deletions(remote, local_after) == Seq::<String>::empty(),
{
    lemma_plan_is_set_difference(remote, local);
    assert(inventory_names(local_after) =~= catalog_names(remote));
    lemma_nothing_to_download(remote, local_after);
    lemma_nothing_to_delete(remote, local_after);
}

} // verus!
