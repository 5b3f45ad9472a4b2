//! Inventory discovery: hosts and their stacks, read off a directory snapshot.

use vstd::prelude::*;
use crate::order::{
    by_name, in_name_order, law_by_name_ignores_listing_order, law_by_name_is_ordered,
    law_by_name_keeps_items, lemma_map_keeps_items, lemma_slot_found, names_differ,
};
use crate::text::{
    contains, ends_with, le, lowercase, occurs_in, same_text, text_le, to_lowercase,
};
use crate::tree::{
    dir_positions, directories, lemma_directories_agree, lemma_directories_by_position, listing,
    same_entry, same_host_dir, same_root, same_stack_dir, DirEntry,
};

verus! {

/// How a stack is deployed.
#[derive(Clone, Copy, Debug, PartialEq, Eq, Structural)]
pub enum StackKind {
    /// A compose manifest lies directly inside the stack directory.
    Compose,
    /// No compose manifest: the stack is driven by scripts.
    Script,
}

/// How a stack kind is spelled on the wire.
pub open spec fn kind_text(kind: StackKind) -> Seq<char> {
    match kind {
        StackKind::Compose => "compose"@,
        StackKind::Script => "script"@,
    }
}

impl StackKind {
    /// The spelling of the kind on the wire: `compose` or `script`.
    pub fn as_str(&self) -> (r: &'static str)
        ensures
            r@ == kind_text(*self),
    {
        match self {
            StackKind::Compose => "compose",
            StackKind::Script => "script",
        }
    }
}

/// A running container of a stack. Discovery never fills these in.
#[derive(Clone, Debug)]
pub struct Container {
    pub name: String,
    pub image: String,
    pub state: String,
}

/// A deployable unit rooted at one directory.
#[derive(Clone, Debug)]
pub struct Stack {
    pub name: String,
    pub kind: StackKind,
    pub path: String,
    pub sops: bool,
    pub containers: Vec<Container>,
}

/// A deployment target and the stacks found under it.
#[derive(Clone, Debug)]
pub struct Host {
    pub host: String,
    pub groups: Vec<String>,
    pub stacks: Vec<Stack>,
}

/// All hosts found under a scan root.
#[derive(Clone, Debug)]
pub struct Inventory {
    pub hosts: Vec<Host>,
}

/// What a container is, as a mathematical value.
pub struct ContainerView {
    pub name: Seq<char>,
    pub image: Seq<char>,
    pub state: Seq<char>,
}

/// What a stack is, as a mathematical value.
pub struct StackView {
    pub name: Seq<char>,
    pub kind: StackKind,
    pub path: Seq<char>,
    pub sops: bool,
    pub containers: Seq<ContainerView>,
}

/// What a host is, as a mathematical value.
pub struct HostView {
    pub host: Seq<char>,
    pub groups: Seq<Seq<char>>,
    pub stacks: Seq<StackView>,
}

/// What an inventory is, as a mathematical value.
pub struct InventoryView {
    pub hosts: Seq<HostView>,
}

impl View for Container {
    type V = ContainerView;

    open spec fn view(&self) -> ContainerView {
        ContainerView { name: self.name@, image: self.image@, state: self.state@ }
    }
}

impl View for Stack {
    type V = StackView;

    open spec fn view(&self) -> StackView {
        StackView {
            name: self.name@,
            kind: self.kind,
            path: self.path@,
            sops: self.sops,
            containers: self.containers@.map_values(|c: Container| c@),
        }
    }
}

impl View for Host {
    type V = HostView;

    open spec fn view(&self) -> HostView {
        HostView {
            host: self.host@,
            groups: self.groups@.map_values(|g: String| g@),
            stacks: stack_views(self.stacks@),
        }
    }
}

impl View for Inventory {
    type V = InventoryView;

    open spec fn view(&self) -> InventoryView {
        InventoryView { hosts: host_views(self.hosts@) }
    }
}

/// The views of a sequence of stacks, in order.
pub open spec fn stack_views(stacks: Seq<Stack>) -> Seq<StackView> {
    stacks.map_values(|s: Stack| s@)
}

/// The views of a sequence of hosts, in order.
pub open spec fn host_views(hosts: Seq<Host>) -> Seq<HostView> {
    hosts.map_values(|h: Host| h@)
}

/// File name of the plain compose manifest.
pub open spec fn compose_manifest() -> Seq<char> {
    "docker-compose.yaml"@
}

/// File name of the templated compose manifest.
pub open spec fn compose_template() -> Seq<char> {
    "docker-compose.tpl.yaml"@
}

/// A name that marks a compose stack: exactly one of the two manifest names.
pub open spec fn is_manifest_name(name: Seq<char>) -> bool {
    name == compose_manifest() || name == compose_template()
}

/// A name that marks an encrypted secret: lower-cased, it ends with
/// `.env.sops` or holds `.sops.` somewhere.
pub open spec fn is_secret_name(name: Seq<char>) -> bool {
    ".env.sops"@.is_suffix_of(lowercase(name)) || occurs_in(".sops."@, lowercase(name))
}

/// Some entry of the listing carries a manifest name.
pub open spec fn holds_manifest(entries: Seq<DirEntry>) -> bool {
    exists|i: int| 0 <= i < entries.len() && is_manifest_name(#[trigger] entries[i].name@)
}

/// Some regular file of the listing carries a secret name.
pub open spec fn holds_secret(entries: Seq<DirEntry>) -> bool {
    exists|i: int|
        0 <= i < entries.len() && (#[trigger] entries[i]).is_file && is_secret_name(
            entries[i].name@,
        )
}

/// Tells whether `name` is one of the two compose manifest names.
pub fn manifest_name(name: &String) -> (r: bool)
    ensures
        r == is_manifest_name(name@),
{
    same_text(name, "docker-compose.yaml") || same_text(name, "docker-compose.tpl.yaml")
}

/// Tells whether `name` follows the naming convention of encrypted secrets.
pub fn secret_name(name: &String) -> (r: bool)
    ensures
        r == is_secret_name(name@),
{
    let lower = to_lowercase(name.as_str());
    ends_with(lower.as_str(), ".env.sops") || contains(lower.as_str(), ".sops.")
}

/// Tells whether a listing holds a compose manifest.
pub fn has_manifest(entries: &Vec<DirEntry>) -> (r: bool)
    ensures
        r == holds_manifest(entries@),
{
    let mut i: usize = 0;
    while i < entries.len()
        invariant
            i <= entries.len(),
            forall|k: int| 0 <= k < i ==> !is_manifest_name(#[trigger] entries[k].name@),
        decreases entries.len() - i,
    {
        if manifest_name(&entries[i].name) {
            return true;
        }
        i += 1;
    }
    false
}

/// Tells whether a listing holds a regular file named like an encrypted
/// secret. The search stops at the first such file.
pub fn glob_has_sops(entries: &Vec<DirEntry>) -> (r: bool)
    ensures
        r == holds_secret(entries@),
{
    let mut i: usize = 0;
    while i < entries.len()
        invariant
            i <= entries.len(),
            forall|k: int|
                0 <= k < i ==> !((#[trigger] entries[k]).is_file && is_secret_name(
                    entries[k].name@,
                )),
        decreases entries.len() - i,
    {
        if entries[i].is_file && secret_name(&entries[i].name) {
            return true;
        }
        i += 1;
    }
    false
}

/// The stack that a stack directory stands for.
pub open spec fn stack_of(dir: DirEntry) -> StackView {
    StackView {
        name: dir.name@,
        kind: if holds_manifest(listing(dir)) {
            StackKind::Compose
        } else {
            StackKind::Script
        },
        path: dir.path@,
        sops: holds_secret(listing(dir)),
        containers: Seq::empty(),
    }
}

/// The stacks under a host: one for each directory of the host's listing, in
/// the order of the listing.
pub open spec fn stacks_of(entries: Seq<DirEntry>) -> Seq<StackView> {
    directories(entries).map_values(|d: DirEntry| stack_of(d))
}

/// The host that a host directory stands for.
pub open spec fn host_of(dir: DirEntry) -> HostView {
    HostView { host: dir.name@, groups: Seq::empty(), stacks: stacks_of(listing(dir)) }
}

/// The hosts under a scan root: one for each directory of the root's listing,
/// in the order of the listing.
pub open spec fn hosts_of(entries: Seq<DirEntry>) -> Seq<HostView> {
    directories(entries).map_values(|d: DirEntry| host_of(d))
}

/// The inventory of a scan root, given its listing; `None` stands for a root
/// that is absent or cannot be read.
pub open spec fn inventory_of(root: Option<Vec<DirEntry>>) -> InventoryView {
    match root {
        Some(entries) => InventoryView { hosts: hosts_of(entries@) },
        None => InventoryView { hosts: Seq::empty() },
    }
}

/// Classifies one stack directory by what lies directly inside it.
pub fn classify_stack(dir: &DirEntry) -> (stack: Stack)
    ensures
        stack@ == stack_of(*dir),
        stack.kind == StackKind::Compose <==> holds_manifest(listing(*dir)),
        stack.kind == StackKind::Script <==> !holds_manifest(listing(*dir)),
        stack.sops <==> holds_secret(listing(*dir)),
        stack.containers@.len() == 0,
{
    let (compose, sops) = match &dir.entries {
        Some(entries) => (has_manifest(entries), glob_has_sops(entries)),
        None => (false, false),
    };
    let kind = if compose {
        StackKind::Compose
    } else {
        StackKind::Script
    };
    let stack = Stack {
        name: dir.name.clone(),
        kind,
        path: dir.path.clone(),
        sops,
        containers: Vec::new(),
    };
    assert(stack@.containers =~= Seq::empty());
    stack
}

/// Finds the stacks of a host: every directory of the listing becomes a
/// stack, everything else is passed over.
pub fn discover_stacks(entries: &Vec<DirEntry>) -> (stacks: Vec<Stack>)
    ensures
        stack_views(stacks@) == stacks_of(entries@),
{
    let mut stacks: Vec<Stack> = Vec::new();
    let mut i: usize = 0;
    assert(entries@.take(0) =~= Seq::empty());
    assert(stack_views(stacks@) =~= stacks_of(entries@.take(0)));
    while i < entries.len()
        invariant
            i <= entries.len(),
            stack_views(stacks@) == stacks_of(entries@.take(i as int)),
        decreases entries.len() - i,
    {
        let ghost before = stacks@;
        let entry = &entries[i];
        if entry.is_dir {
            let stack = classify_stack(entry);
            stacks.push(stack);
        }
        proof {
            let seen = entries@.take(i as int);
            let pred = |e: DirEntry| e.is_dir;
            assert(entries@.take(i + 1) =~= seen.push(*entry));
            seen.lemma_filter_push(*entry, pred);
            if entry.is_dir {
                directories(seen).lemma_push_map_commute(|d: DirEntry| stack_of(d), *entry);
                before.lemma_push_map_commute(|s: Stack| s@, stacks@.last());
                assert(stacks@ =~= before.push(stacks@.last()));
            }
        }
        i += 1;
    }
    assert(entries@.take(i as int) =~= entries@);
    stacks
}

/// Describes one host directory: its name and the stacks found directly under
/// it. A directory that could not be listed is a host without stacks.
pub fn discover_host(dir: &DirEntry) -> (host: Host)
    ensures
        host@ == host_of(*dir),
{
    let stacks = match &dir.entries {
        Some(entries) => discover_stacks(entries),
        None => Vec::new(),
    };
    proof {
        if dir.entries is None {
            assert(stack_views(stacks@) =~= stacks_of(Seq::empty()));
        }
    }
    let host = Host { host: dir.name.clone(), groups: Vec::new(), stacks };
    assert(host@.groups =~= Seq::empty());
    host
}

/// Finds the hosts under a scan root: every directory of the listing becomes
/// a host, everything else is passed over.
pub fn discover_hosts(entries: &Vec<DirEntry>) -> (hosts: Vec<Host>)
    ensures
        host_views(hosts@) == hosts_of(entries@),
{
    let mut hosts: Vec<Host> = Vec::new();
    let mut i: usize = 0;
    assert(entries@.take(0) =~= Seq::empty());
    assert(host_views(hosts@) =~= hosts_of(entries@.take(0)));
    while i < entries.len()
        invariant
            i <= entries.len(),
            host_views(hosts@) == hosts_of(entries@.take(i as int)),
        decreases entries.len() - i,
    {
        let ghost before = hosts@;
        let entry = &entries[i];
        if entry.is_dir {
            let host = discover_host(entry);
            hosts.push(host);
        }
        proof {
            let seen = entries@.take(i as int);
            let pred = |e: DirEntry| e.is_dir;
            assert(entries@.take(i + 1) =~= seen.push(*entry));
            seen.lemma_filter_push(*entry, pred);
            if entry.is_dir {
                directories(seen).lemma_push_map_commute(|d: DirEntry| host_of(d), *entry);
                before.lemma_push_map_commute(|h: Host| h@, hosts@.last());
                assert(hosts@ =~= before.push(hosts@.last()));
            }
        }
        i += 1;
    }
    assert(entries@.take(i as int) =~= entries@);
    hosts
}

/// Builds the inventory of a scan root from its listing. `None` stands for a
/// root that is absent or cannot be read, and gives the empty inventory.
/// Hosts and stacks come in the order of the listings; entries that are not
/// directories are passed over; nothing below a stack directory's own
/// entries is looked at.
pub fn get_inventory(root: &Option<Vec<DirEntry>>) -> (inv: Inventory)
    ensures
        inv@ == inventory_of(*root),
        *root is None ==> inv.hosts@.len() == 0,
        *root matches Some(entries) ==> inv.hosts@.len() == dir_positions(entries@).len(),
{
    match root {
        Some(entries) => {
            proof {
                law_one_host_per_directory(entries@);
            }
            Inventory { hosts: discover_hosts(entries) }
        },
        None => {
            let inv = Inventory { hosts: Vec::new() };
            assert(inv@.hosts =~= Seq::empty());
            inv
        },
    }
}

/// The name by which stacks are ordered.
pub open spec fn stack_name() -> spec_fn(StackView) -> Seq<char> {
    |s: StackView| s.name
}

/// The name by which hosts are ordered.
pub open spec fn host_name() -> spec_fn(HostView) -> Seq<char> {
    |h: HostView| h.host
}

/// A host with its stacks in name order.
pub open spec fn tidy_host(h: HostView) -> HostView {
    HostView { host: h.host, groups: h.groups, stacks: by_name(h.stacks, stack_name()) }
}

/// An inventory in name order: the hosts by name, and under each host the
/// stacks by name.
pub open spec fn sorted_inventory(inv: InventoryView) -> InventoryView {
    InventoryView { hosts: by_name(inv.hosts.map_values(|h: HostView| tidy_host(h)), host_name()) }
}

/// Puts stacks in the order of their names.
pub fn sort_stacks(stacks: Vec<Stack>) -> (sorted: Vec<Stack>)
    ensures
        stack_views(sorted@) == by_name(stack_views(stacks@), stack_name()),
{
    let ghost all = stack_views(stacks@);
    let mut rest = stacks;
    let mut sorted: Vec<Stack> = Vec::new();
    assert(all.take(all.len() as int) =~= all);
    assert(all.skip(all.len() as int) =~= Seq::empty());
    assert(stack_views(sorted@) =~= Seq::empty());
    while rest.len() > 0
        invariant
            rest@.len() <= all.len(),
            stack_views(rest@) == all.take(rest@.len() as int),
            stack_views(sorted@) == by_name(all.skip(rest@.len() as int), stack_name()),
        decreases rest@.len(),
    {
        let ghost k = rest@.len() as int;
        let ghost before = sorted@;
        let ghost taken = rest@;
        let item = rest.pop().unwrap();
        assert(item@ == all[k - 1]) by {
            assert(stack_views(taken)[k - 1] == all.take(k)[k - 1]);
        }
        let mut j: usize = 0;
        while j < sorted.len() && !le(item.name.as_str(), sorted[j].name.as_str())
            invariant
                j <= sorted.len(),
                sorted@ == before,
                forall|i: int|
                    0 <= i < j ==> !text_le(item@.name, (#[trigger] stack_views(sorted@)[i]).name),
            decreases sorted.len() - j,
        {
            j += 1;
        }
        proof {
            let tail = all.skip(k - 1);
            assert(tail.drop_first() =~= all.skip(k));
            assert(tail.first() == item@);
            lemma_slot_found(stack_views(before), item@, stack_name(), j as int);
            assert(stack_views(rest@) =~= all.take(k - 1));
        }
        sorted.insert(j, item);
        assert(stack_views(sorted@) =~= stack_views(before).insert(j as int, item@));
    }
    assert(all.skip(0) =~= all);
    sorted
}

impl Inventory {
    /// Puts the inventory in name order: the hosts by name, and under each
    /// host the stacks by name. Nothing is added, dropped or changed. The
    /// outcome no longer depends on the order in which the directories were
    /// listed.
    pub fn sorted(self) -> (inv: Inventory)
        ensures
            inv@ == sorted_inventory(self@),
    {
        let ghost all = self@.hosts.map_values(|h: HostView| tidy_host(h));
        let ghost given = self@.hosts;
        let mut rest = self.hosts;
        let mut sorted: Vec<Host> = Vec::new();
        assert(all.skip(all.len() as int) =~= Seq::empty());
        assert(host_views(sorted@) =~= Seq::empty());
        assert(given.take(given.len() as int) =~= given);
        while rest.len() > 0
            invariant
                all == given.map_values(|h: HostView| tidy_host(h)),
                rest@.len() <= given.len(),
                host_views(rest@) == given.take(rest@.len() as int),
                host_views(sorted@) == by_name(all.skip(rest@.len() as int), host_name()),
            decreases rest@.len(),
        {
            let ghost k = rest@.len() as int;
            let ghost before = sorted@;
            let ghost taken = rest@;
            let found = rest.pop().unwrap();
            assert(found@ == given[k - 1]) by {
                assert(host_views(taken)[k - 1] == given.take(k)[k - 1]);
            }
            let Host { host, groups, stacks } = found;
            let item = Host { host, groups, stacks: sort_stacks(stacks) };
            assert(item@ == all[k - 1]);
            let mut j: usize = 0;
            while j < sorted.len() && !le(item.host.as_str(), sorted[j].host.as_str())
                invariant
                    j <= sorted.len(),
                    sorted@ == before,
                    forall|i: int|
                        0 <= i < j ==> !text_le(item@.host, (#[trigger] host_views(sorted@)[i]).host),
                decreases sorted.len() - j,
            {
                j += 1;
            }
            proof {
                let tail = all.skip(k - 1);
                assert(tail.drop_first() =~= all.skip(k));
                assert(tail.first() == item@);
                lemma_slot_found(host_views(before), item@, host_name(), j as int);
                assert(host_views(rest@) =~= given.take(k - 1));
            }
            sorted.insert(j, item);
            assert(host_views(sorted@) =~= host_views(before).insert(j as int, item@));
        }
        assert(all.skip(0) =~= all);
        Inventory { hosts: sorted }
    }
}

/// An inventory put in name order has its hosts in name order and, under
/// every host, the stacks in name order. It has as many hosts as before, and
/// each of them is one of the given hosts with its stacks reordered.
pub proof fn law_sorted_inventory_is_ordered(inv: InventoryView)
    ensures
        in_name_order(sorted_inventory(inv).hosts, host_name()),
        sorted_inventory(inv).hosts.len() == inv.hosts.len(),
        forall|k: int|
            0 <= k < sorted_inventory(inv).hosts.len() ==> in_name_order(
                (#[trigger] sorted_inventory(inv).hosts[k]).stacks,
                stack_name(),
            ),
        forall|k: int|
            0 <= k < sorted_inventory(inv).hosts.len() ==> exists|i: int|
                0 <= i < inv.hosts.len() && #[trigger] sorted_inventory(inv).hosts[k] == tidy_host(
                    inv.hosts[i],
                ),
        forall|i: int|
            0 <= i < inv.hosts.len() ==> {
                &&& (#[trigger] tidy_host(inv.hosts[i])).stacks.to_multiset()
                    == inv.hosts[i].stacks.to_multiset()
                &&& sorted_inventory(inv).hosts.contains(tidy_host(inv.hosts[i]))
            },
{
    broadcast use vstd::seq_lib::group_to_multiset_ensures;

    let tidy = inv.hosts.map_values(|h: HostView| tidy_host(h));
    let out = sorted_inventory(inv).hosts;
    law_by_name_is_ordered(tidy, host_name());
    law_by_name_keeps_items(tidy, host_name());
    assert forall|k: int| 0 <= k < out.len() implies in_name_order(
        (#[trigger] out[k]).stacks,
        stack_name(),
    ) && exists|i: int| 0 <= i < inv.hosts.len() && out[k] == tidy_host(inv.hosts[i]) by {
        assert(out.contains(out[k]));
        assert(tidy.to_multiset().count(out[k]) > 0);
        assert(tidy.contains(out[k]));
        let i = choose|i: int| 0 <= i < tidy.len() && tidy[i] == out[k];
        assert(out[k] == tidy_host(inv.hosts[i]));
        law_by_name_is_ordered(inv.hosts[i].stacks, stack_name());
    }
    assert forall|i: int| 0 <= i < inv.hosts.len() implies {
        &&& (#[trigger] tidy_host(inv.hosts[i])).stacks.to_multiset()
            == inv.hosts[i].stacks.to_multiset()
        &&& out.contains(tidy_host(inv.hosts[i]))
    } by {
        law_by_name_keeps_items(inv.hosts[i].stacks, stack_name());
        assert(tidy[i] == tidy_host(inv.hosts[i]));
        assert(tidy.contains(tidy[i]));
        assert(out.to_multiset().count(tidy[i]) > 0);
    }
}

/// Name order does away with the order of the listing: two inventories that
/// hold the same hosts, no two of the same name, are the same inventory once
/// put in name order.
pub proof fn law_sorted_inventory_ignores_listing_order(a: InventoryView, b: InventoryView)
    requires
        a.hosts.to_multiset() == b.hosts.to_multiset(),
        names_differ(a.hosts, host_name()),
    ensures
        sorted_inventory(a) == sorted_inventory(b),
{
    let f = |h: HostView| tidy_host(h);
    lemma_map_keeps_items(a.hosts, b.hosts, f);
    assert forall|i: int, j: int| 0 <= i < j < a.hosts.len() implies host_name()(
        #[trigger] a.hosts.map_values(f)[i],
    ) != host_name()(#[trigger] a.hosts.map_values(f)[j]) by {
        assert(host_name()(a.hosts[i]) != host_name()(a.hosts[j]));
    }
    law_by_name_ignores_listing_order(a.hosts.map_values(f), b.hosts.map_values(f), host_name());
}

/// Every directory directly under the scan root gives exactly one host, and
/// nothing else gives one: host `k` stands for the `k`-th directory of the
/// listing, the directories' positions are distinct and increasing, and no
/// directory is left out.
pub proof fn law_one_host_per_directory(entries: Seq<DirEntry>)
    ensures
        hosts_of(entries).len() == dir_positions(entries).len(),
        forall|k: int|
            0 <= k < hosts_of(entries).len() ==> {
                let p = dir_positions(entries)[k];
                &&& 0 <= p < entries.len()
                &&& entries[p].is_dir
                &&& #[trigger] hosts_of(entries)[k] == host_of(entries[p])
                &&& hosts_of(entries)[k].host == entries[p].name@
            },
        forall|j: int, k: int|
            0 <= j < k < dir_positions(entries).len() ==> dir_positions(entries)[j]
                < dir_positions(entries)[k],
        forall|i: int|
            0 <= i < entries.len() && (#[trigger] entries[i]).is_dir ==> dir_positions(
                entries,
            ).contains(i),
{
    lemma_directories_by_position(entries);
    assert forall|k: int| 0 <= k < hosts_of(entries).len() implies {
        let p = dir_positions(entries)[k];
        &&& 0 <= p < entries.len()
        &&& entries[p].is_dir
        &&& #[trigger] hosts_of(entries)[k] == host_of(entries[p])
        &&& hosts_of(entries)[k].host == entries[p].name@
    } by {
        let p = dir_positions(entries)[k];
        assert(directories(entries)[k] == entries[p]);
    }
}

/// Every directory directly under a host directory gives exactly one stack,
/// and nothing else gives one: stack `k` stands for the `k`-th directory of
/// the host's listing, with that directory's name and path.
pub proof fn law_one_stack_per_directory(entries: Seq<DirEntry>)
    ensures
        stacks_of(entries).len() == dir_positions(entries).len(),
        forall|k: int|
            0 <= k < stacks_of(entries).len() ==> {
                let p = dir_positions(entries)[k];
                &&& 0 <= p < entries.len()
                &&& entries[p].is_dir
                &&& #[trigger] stacks_of(entries)[k] == stack_of(entries[p])
                &&& stacks_of(entries)[k].name == entries[p].name@
                &&& stacks_of(entries)[k].path == entries[p].path@
            },
        forall|j: int, k: int|
            0 <= j < k < dir_positions(entries).len() ==> dir_positions(entries)[j]
                < dir_positions(entries)[k],
        forall|i: int|
            0 <= i < entries.len() && (#[trigger] entries[i]).is_dir ==> dir_positions(
                entries,
            ).contains(i),
{
    lemma_directories_by_position(entries);
    assert forall|k: int| 0 <= k < stacks_of(entries).len() implies {
        let p = dir_positions(entries)[k];
        &&& 0 <= p < entries.len()
        &&& entries[p].is_dir
        &&& #[trigger] stacks_of(entries)[k] == stack_of(entries[p])
        &&& stacks_of(entries)[k].name == entries[p].name@
        &&& stacks_of(entries)[k].path == entries[p].path@
    } by {
        let p = dir_positions(entries)[k];
        assert(directories(entries)[k] == entries[p]);
    }
}

/// Every stack of an inventory stands for a directory directly inside its
/// host's directory, which lies directly inside the scan root: stack `s` of
/// host `h` has the name and the path of that directory and is classified by
/// what that directory holds.
pub proof fn law_stack_lies_under_its_host(root: Seq<DirEntry>, h: int, s: int)
    requires
        0 <= h < hosts_of(root).len(),
        0 <= s < hosts_of(root)[h].stacks.len(),
    ensures
        ({
            let host_at = dir_positions(root)[h];
            let stack_at = dir_positions(listing(root[host_at]))[s];
            let host_dir = root[host_at];
            let stack_dir = listing(host_dir)[stack_at];
            &&& 0 <= host_at < root.len()
            &&& host_dir.is_dir
            &&& 0 <= stack_at < listing(host_dir).len()
            &&& stack_dir.is_dir
            &&& hosts_of(root)[h].host == host_dir.name@
            &&& hosts_of(root)[h].stacks[s] == stack_of(stack_dir)
            &&& hosts_of(root)[h].stacks[s].name == stack_dir.name@
            &&& hosts_of(root)[h].stacks[s].path == stack_dir.path@
        }),
{
    law_one_host_per_directory(root);
    let host_at = dir_positions(root)[h];
    assert(hosts_of(root)[h] == host_of(root[host_at]));
    law_one_stack_per_directory(listing(root[host_at]));
    let inside = listing(root[host_at]);
    assert(stacks_of(inside)[s] == stack_of(inside[dir_positions(inside)[s]]));
}

/// An entry with a manifest name directly inside a stack directory makes the
/// stack a compose stack, whatever else the directory holds.
pub proof fn law_manifest_means_compose(dir: DirEntry, i: int)
    requires
        0 <= i < listing(dir).len(),
        listing(dir)[i].name@ == compose_manifest() || listing(dir)[i].name@ == compose_template(),
    ensures
        stack_of(dir).kind == StackKind::Compose,
{
    assert(is_manifest_name(listing(dir)[i].name@));
}

/// A stack directory with no entry of either manifest name is a script
/// stack, whatever else it holds.
pub proof fn law_no_manifest_means_script(dir: DirEntry)
    requires
        forall|i: int|
            0 <= i < listing(dir).len() ==> (#[trigger] listing(dir)[i]).name@ != compose_manifest()
                && listing(dir)[i].name@ != compose_template(),
    ensures
        stack_of(dir).kind == StackKind::Script,
{
}

/// A regular file with a secret name directly inside a stack directory sets
/// the secret flag.
pub proof fn law_secret_file_sets_flag(dir: DirEntry, i: int)
    requires
        0 <= i < listing(dir).len(),
        listing(dir)[i].is_file,
        ".env.sops"@.is_suffix_of(lowercase(listing(dir)[i].name@)) || occurs_in(
            ".sops."@,
            lowercase(listing(dir)[i].name@),
        ),
    ensures
        stack_of(dir).sops,
{
    assert(listing(dir)[i].is_file && is_secret_name(listing(dir)[i].name@));
}

/// A stack directory without a regular file of a secret name directly inside
/// it has the secret flag cleared.
pub proof fn law_no_secret_file_clears_flag(dir: DirEntry)
    requires
        forall|i: int|
            0 <= i < listing(dir).len() && (#[trigger] listing(dir)[i]).is_file ==> !is_secret_name(
                listing(dir)[i].name@,
            ),
    ensures
        !stack_of(dir).sops,
{
}

/// Classification is shallow: two stack directories with the same name and
/// path whose own entries agree in name and kind give the same stack,
/// whatever lies inside their subdirectories.
pub proof fn law_classification_is_shallow(a: DirEntry, b: DirEntry)
    requires
        same_stack_dir(a, b),
    ensures
        stack_of(a) == stack_of(b),
{
    let la = listing(a);
    let lb = listing(b);
    assert(holds_manifest(la) == holds_manifest(lb)) by {
        if holds_manifest(la) {
            let i = choose|i: int| 0 <= i < la.len() && is_manifest_name(#[trigger] la[i].name@);
            assert(same_entry(la[i], lb[i]));
            assert(is_manifest_name(lb[i].name@));
        }
        if holds_manifest(lb) {
            let i = choose|i: int| 0 <= i < lb.len() && is_manifest_name(#[trigger] lb[i].name@);
            assert(same_entry(la[i], lb[i]));
            assert(is_manifest_name(la[i].name@));
        }
    }
    assert(holds_secret(la) == holds_secret(lb)) by {
        if holds_secret(la) {
            let i = choose|i: int|
                0 <= i < la.len() && (#[trigger] la[i]).is_file && is_secret_name(la[i].name@);
            assert(same_entry(la[i], lb[i]));
            assert(lb[i].is_file && is_secret_name(lb[i].name@));
        }
        if holds_secret(lb) {
            let i = choose|i: int|
                0 <= i < lb.len() && (#[trigger] lb[i]).is_file && is_secret_name(lb[i].name@);
            assert(same_entry(la[i], lb[i]));
            assert(la[i].is_file && is_secret_name(la[i].name@));
        }
    }
}

/// Two host directories that look alike give the same host.
pub proof fn law_same_host_dir_same_host(a: DirEntry, b: DirEntry)
    requires
        same_host_dir(a, b),
    ensures
        host_of(a) == host_of(b),
{
    let la = listing(a);
    let lb = listing(b);
    let f = |d: DirEntry| stack_of(d);
    assert forall|i: int| 0 <= i < la.len() implies (#[trigger] la[i]).is_dir == lb[i].is_dir by {
        assert(same_entry(la[i], lb[i]));
    }
    assert forall|i: int| 0 <= i < la.len() && (#[trigger] la[i]).is_dir implies f(la[i]) == f(
        lb[i],
    ) by {
        law_classification_is_shallow(la[i], lb[i]);
    }
    lemma_directories_agree(la, lb, f);
}

/// Discovery depends on nothing but what it reads: two scan roots that look
/// alike, down to the entries directly inside each stack directory, give the
/// same inventory. Scanning an unchanged tree twice is the case of a root
/// that looks like itself.
pub proof fn law_same_tree_same_inventory(a: Option<Vec<DirEntry>>, b: Option<Vec<DirEntry>>)
    requires
        same_root(a, b),
    ensures
        inventory_of(a) == inventory_of(b),
{
    if a is Some {
        let la = a->Some_0@;
        let lb = b->Some_0@;
        let f = |d: DirEntry| host_of(d);
        assert forall|i: int| 0 <= i < la.len() implies (#[trigger] la[i]).is_dir == lb[i].is_dir by {
            assert(same_entry(la[i], lb[i]));
        }
        assert forall|i: int| 0 <= i < la.len() && (#[trigger] la[i]).is_dir implies f(la[i]) == f(
            lb[i],
        ) by {
            law_same_host_dir_same_host(la[i], lb[i]);
        }
        lemma_directories_agree(la, lb, f);
    }
}

/// Scanning the same snapshot twice gives the same inventory.
pub proof fn law_rescan_is_idempotent(root: Option<Vec<DirEntry>>, first: Inventory, second: Inventory)
    requires
        first@ == inventory_of(root),
        second@ == inventory_of(root),
    ensures
        first@ == second@,
{
}

} // verus!
