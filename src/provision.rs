use vstd::prelude::*;
use crate::catalog::{holds_name, ColorCatalog, ColorEntry};

verus! {

/// The entries of `entries` whose names are not among `existing`, in order.
pub open spec fn missing(entries: Seq<ColorEntry>, existing: Seq<String>) -> Seq<ColorEntry>
    decreases entries.len(),
{
    if entries.len() == 0 {
        Seq::empty()
    } else {
        let rest = missing(entries.drop_last(), existing);
        if holds_name(existing, entries.last().name@) {
            rest
        } else {
            rest.push(entries.last())
        }
    }
}

/// Every entry left out of `missing` is already there, and every entry kept
/// is not.
proof fn lemma_missing_members(entries: Seq<ColorEntry>, existing: Seq<String>)
    ensures
        forall|i: int|
            0 <= i < entries.len() && !holds_name(existing, (#[trigger] entries[i]).name@)
                ==> exists|j: int|
                0 <= j < missing(entries, existing).len() && missing(entries, existing)[j]
                    == entries[i],
        forall|j: int|
            0 <= j < missing(entries, existing).len() ==> !holds_name(
                existing,
                (#[trigger] missing(entries, existing)[j]).name@,
            ),
    decreases entries.len(),
{
    if entries.len() > 0 {
        let init = entries.drop_last();
        lemma_missing_members(init, existing);
        let rest = missing(init, existing);
        assert forall|i: int|
            0 <= i < entries.len() && !holds_name(existing, (#[trigger] entries[i]).name@)
                implies exists|j: int|
                0 <= j < missing(entries, existing).len() && missing(entries, existing)[j]
                    == entries[i] by {
            if i < entries.len() - 1 {
                assert(init[i] == entries[i]);
                let j = choose|j: int| 0 <= j < rest.len() && rest[j] == init[i];
                assert(missing(entries, existing)[j] == entries[i]);
            } else {
                let j = rest.len() as int;
                assert(missing(entries, existing)[j] == entries[i]);
            }
        }
    }
}

/// A second provisioning of a guild creates nothing: once every role that the
/// first one created is present, and every role that was there still is,
/// nothing is missing any more.
pub proof fn lemma_provision_idempotent(catalog: ColorCatalog, existing: Seq<String>, after: Seq<String>)
    requires
        forall|j: int|
            0 <= j < missing(catalog.entries@, existing).len() ==> holds_name(
                after,
                (#[trigger] missing(catalog.entries@, existing)[j]).name@,
            ),
        forall|k: int| 0 <= k < existing.len() ==> holds_name(after, (#[trigger] existing[k])@),
    ensures
        missing(catalog.entries@, after).len() == 0,
{
    let entries = catalog.entries@;
    lemma_missing_members(entries, existing);
    lemma_missing_members(entries, after);
    if missing(entries, after).len() > 0 {
        let e = missing(entries, after)[0];
        assert(!holds_name(after, e.name@));
        lemma_missing_subset(entries, after);
        let i = choose|i: int| 0 <= i < entries.len() && entries[i] == e;
        if holds_name(existing, e.name@) {
            let k = choose|k: int| 0 <= k < existing.len() && (#[trigger] existing[k])@ == e.name@;
            assert(holds_name(after, existing[k]@));
        } else {
            assert(!holds_name(existing, entries[i].name@));
            let j = choose|j: int|
                0 <= j < missing(entries, existing).len() && missing(entries, existing)[j]
                    == entries[i];
            assert(holds_name(after, missing(entries, existing)[j].name@));
        }
    }
}

/// Every entry of `missing` is an entry of the catalog.
proof fn lemma_missing_subset(entries: Seq<ColorEntry>, existing: Seq<String>)
    ensures
        forall|j: int|
            0 <= j < missing(entries, existing).len() ==> exists|i: int|
                0 <= i < entries.len() && entries[i] == #[trigger] missing(entries, existing)[j],
    decreases entries.len(),
{
    if entries.len() > 0 {
        let init = entries.drop_last();
        lemma_missing_subset(init, existing);
        let rest = missing(init, existing);
        assert forall|j: int| 0 <= j < missing(entries, existing).len() implies exists|i: int|
            0 <= i < entries.len() && entries[i] == #[trigger] missing(entries, existing)[j] by {
            if j < rest.len() {
                let i = choose|i: int| 0 <= i < init.len() && init[i] == rest[j];
                assert(entries[i] == init[i]);
            } else {
                assert(entries[entries.len() - 1] == missing(entries, existing)[j]);
            }
        }
    }
}

/// Whether some string of `names` equals `name`.
fn names_contain(names: &Vec<String>, name: &String) -> (r: bool)
    ensures
        r == holds_name(names@, name@),
{
    let mut k: usize = 0;
    while k < names.len()
        invariant
            k <= names@.len(),
            forall|a: int| 0 <= a < k ==> names@[a]@ != name@,
        decreases names@.len() - k,
    {
        if names[k] == *name {
            return true;
        }
        k = k + 1;
    }
    false
}

/// The color roles to create in a guild whose roles are named `existing`:
/// those whose names are not already there, in catalog order.
pub fn roles_to_create(catalog: &ColorCatalog, existing: &Vec<String>) -> (r: Vec<ColorEntry>)
    ensures
        r@.len() == missing(catalog.entries@, existing@).len(),
        forall|j: int|
            0 <= j < r@.len() ==> (#[trigger] r@[j]).name@ == missing(
                catalog.entries@,
                existing@,
            )[j].name@ && r@[j].red == missing(catalog.entries@, existing@)[j].red
                && r@[j].green == missing(catalog.entries@, existing@)[j].green && r@[j].blue
                == missing(catalog.entries@, existing@)[j].blue,
{
    let entries = &catalog.entries;
    let mut r: Vec<ColorEntry> = Vec::new();
    let mut i: usize = 0;
    while i < entries.len()
        invariant
            i <= entries@.len(),
            entries@ == catalog.entries@,
            r@.len() == missing(entries@.subrange(0, i as int), existing@).len(),
            forall|j: int|
                0 <= j < r@.len() ==> (#[trigger] r@[j]).name@ == missing(
                    entries@.subrange(0, i as int),
                    existing@,
                )[j].name@ && r@[j].red == missing(entries@.subrange(0, i as int), existing@)[j].red
                    && r@[j].green == missing(entries@.subrange(0, i as int), existing@)[j].green
                    && r@[j].blue == missing(entries@.subrange(0, i as int), existing@)[j].blue,
        decreases entries@.len() - i,
    {
        let ghost prev = entries@.subrange(0, i as int);
        let ghost cur = entries@.subrange(0, i as int + 1);
        assert(cur.drop_last() =~= prev);
        assert(cur.last() == entries@[i as int]);
        if !names_contain(existing, &entries[i].name) {
            r.push(entries[i].duplicate());
        }
        i = i + 1;
    }
    assert(entries@.subrange(0, entries@.len() as int) =~= entries@);
    r
}

/// Guard that lets provisioning run once per process.
pub struct ProvisionGuard {
    pub done: bool,
}

impl ProvisionGuard {
    /// A guard that has not run yet.
    pub fn new() -> (r: ProvisionGuard)
        ensures
            !r.done,
    {
        ProvisionGuard { done: false }
    }

    /// Whether this caller is the one to provision; true at most once.
    pub fn claim(&mut self) -> (r: bool)
        ensures
            r == !old(self).done,
            final(self).done,
    {
        let first = !self.done;
        self.done = true;
        first
    }
}

/// Creation of the missing roles of one guild, one call at a time; the first
/// failure abandons the rest of that guild.
pub struct GuildProvisioning {
    pub plan: Vec<ColorEntry>,
    pub created: usize,
    pub abandoned: bool,
}

impl GuildProvisioning {
    /// Consistent progress through the plan.
    pub open spec fn wf(&self) -> bool {
        self.created <= self.plan@.len()
    }

    /// Starts on the roles that `existing` lacks.
    pub fn start(catalog: &ColorCatalog, existing: &Vec<String>) -> (r: GuildProvisioning)
        ensures
            r.wf(),
            r.created == 0,
            !r.abandoned,
            r.plan@.len() == missing(catalog.entries@, existing@).len(),
            forall|j: int|
                0 <= j < r.plan@.len() ==> (#[trigger] r.plan@[j]).name@ == missing(
                    catalog.entries@,
                    existing@,
                )[j].name@,
    {
        GuildProvisioning { plan: roles_to_create(catalog, existing), created: 0, abandoned: false }
    }

    /// The index in `plan` of the role to create next; `None` once all are
    /// created or after a failure.
    pub fn next_role(&self) -> (r: Option<usize>)
        requires
            self.wf(),
        ensures
            r is Some <==> (!self.abandoned && self.created < self.plan@.len()),
            r matches Some(i) ==> i == self.created,
    {
        if !self.abandoned && self.created < self.plan.len() {
            Some(self.created)
        } else {
            None
        }
    }

    /// Records the outcome of creating the role that `next_role` gave.
    pub fn record(&mut self, ok: bool)
        requires
            old(self).wf(),
            !old(self).abandoned,
            old(self).created < old(self).plan@.len(),
        ensures
            final(self).wf(),
            final(self).plan@ == old(self).plan@,
            ok ==> final(self).created == old(self).created + 1 && !final(self).abandoned,
            !ok ==> final(self).created == old(self).created && final(self).abandoned,
    {
        let planned = self.plan.len();
        if ok {
            assert(self.created < planned);
            self.created = self.created + 1;
        } else {
            self.abandoned = true;
        }
    }
}

} // verus!
