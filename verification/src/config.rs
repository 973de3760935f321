//! The data of the controller: the bootstrap configuration, a sparse record
//! whose layers are merged field by field, and the registry of connections,
//! an ordered list of trust entries in which the same entry may stand twice.

use crate::vecs::reversed;
use vstd::prelude::*;

verus! {

/// Desired, not yet trusted, settings for a registration. Every field is
/// either present or absent; an absent field is not the same as an empty one.
#[derive(Clone, Debug, PartialEq, Eq)]
pub struct Config {
    /// Candidate server addresses, in order of preference.
    pub marcv_addresses: Option<Vec<String>>,
    /// The identifier of this client.
    pub uuid: Option<String>,
    /// The name of the package or distribution.
    pub package_name: Option<String>,
    /// The root certificate, PEM-encoded.
    pub root_certificate: Option<String>,
}

/// What a [`Config`] holds, as mathematical values.
pub struct ConfigView {
    pub marcv_addresses: Option<Seq<Seq<char>>>,
    pub uuid: Option<Seq<char>>,
    pub package_name: Option<Seq<char>>,
    pub root_certificate: Option<Seq<char>>,
}

impl View for Config {
    type V = ConfigView;

    open spec fn view(&self) -> ConfigView {
        ConfigView {
            marcv_addresses: self.marcv_addresses.deep_view(),
            uuid: self.uuid.deep_view(),
            package_name: self.package_name.deep_view(),
            root_certificate: self.root_certificate.deep_view(),
        }
    }
}

/// The value of one field after a merge: the winner's if it is present, else
/// the loser's.
pub open spec fn prefer<T>(loser: Option<T>, winner: Option<T>) -> Option<T> {
    if winner is Some {
        winner
    } else {
        loser
    }
}

impl ConfigView {
    /// The configuration in which every field is absent.
    pub open spec fn absent() -> ConfigView {
        ConfigView { marcv_addresses: None, uuid: None, package_name: None, root_certificate: None }
    }

    /// The merge of two layers, field by field.
    pub open spec fn merge(loser: ConfigView, winner: ConfigView) -> ConfigView {
        ConfigView {
            marcv_addresses: prefer(loser.marcv_addresses, winner.marcv_addresses),
            uuid: prefer(loser.uuid, winner.uuid),
            package_name: prefer(loser.package_name, winner.package_name),
            root_certificate: prefer(loser.root_certificate, winner.root_certificate),
        }
    }
}

/// What the user may override when a registration is asked for.
#[derive(Clone, Debug, PartialEq, Eq)]
pub struct RegistrationArgs {
    /// Candidate server addresses, in order of preference.
    pub server: Option<Vec<String>>,
    /// The name of the package or distribution.
    pub package_name: Option<String>,
}

impl RegistrationArgs {
    /// The layer that the overrides make: the addresses and the package name
    /// as given, the identifier and the root certificate absent.
    pub open spec fn as_config(self) -> ConfigView {
        ConfigView {
            marcv_addresses: self.server.deep_view(),
            uuid: None,
            package_name: self.package_name.deep_view(),
            root_certificate: None,
        }
    }
}

/// The winner's value if it has one, else the loser's.
fn winner_or<T>(winner: Option<T>, loser: Option<T>) -> (kept: Option<T>)
    ensures
        kept == prefer(loser, winner),
{
    match winner {
        Some(value) => Some(value),
        None => loser,
    }
}

impl Config {
    /// The configuration in which every field is absent.
    pub fn empty_config() -> (config: Config)
        ensures
            config@ == ConfigView::absent(),
    {
        Config { marcv_addresses: None, uuid: None, package_name: None, root_certificate: None }
    }

    /// The layer that the user's overrides make: the addresses and the
    /// package name as given, the identifier and the root certificate absent,
    /// since neither can be given by the user.
    pub fn from_args(args: RegistrationArgs) -> (config: Config)
        ensures
            config@ == args.as_config(),
            config.marcv_addresses == args.server,
            config.uuid is None,
            config.package_name == args.package_name,
            config.root_certificate is None,
    {
        Config {
            marcv_addresses: args.server,
            uuid: None,
            package_name: args.package_name,
            root_certificate: None,
        }
    }

    /// Merges two layers: each field of the result is the winner's where the
    /// winner sets it, and the loser's where it does not.
    pub fn merge_two_configs(loser: Config, winner: Config) -> (merged: Config)
        ensures
            merged@ == ConfigView::merge(loser@, winner@),
            merged.marcv_addresses == prefer(loser.marcv_addresses, winner.marcv_addresses),
            merged.uuid == prefer(loser.uuid, winner.uuid),
            merged.package_name == prefer(loser.package_name, winner.package_name),
            merged.root_certificate == prefer(loser.root_certificate, winner.root_certificate),
    {
        Config {
            marcv_addresses: winner_or(winner.marcv_addresses, loser.marcv_addresses),
            uuid: winner_or(winner.uuid, loser.uuid),
            package_name: winner_or(winner.package_name, loser.package_name),
            root_certificate: winner_or(winner.root_certificate, loser.root_certificate),
        }
    }
}

/// Merging a configuration with itself gives that configuration.
pub proof fn lemma_merge_idempotent(config: ConfigView)
    ensures
        ConfigView::merge(config, config) == config,
{
}

/// Each field of a merge is the winner's where the winner sets it, and the
/// loser's where it does not; a field that neither sets stays absent.
pub proof fn lemma_merge_precedence(loser: ConfigView, winner: ConfigView)
    ensures
        ({
            let merged = ConfigView::merge(loser, winner);
            &&& merged.marcv_addresses == if winner.marcv_addresses is Some {
                winner.marcv_addresses
            } else {
                loser.marcv_addresses
            }
            &&& merged.uuid == if winner.uuid is Some {
                winner.uuid
            } else {
                loser.uuid
            }
            &&& merged.package_name == if winner.package_name is Some {
                winner.package_name
            } else {
                loser.package_name
            }
            &&& merged.root_certificate == if winner.root_certificate is Some {
                winner.root_certificate
            } else {
                loser.root_certificate
            }
        }),
{
}

/// One established trust relationship with a server.
#[derive(Clone, Debug, PartialEq, Eq)]
pub struct ServerSpec {
    /// The address of the server.
    pub marcv_address: String,
    /// The identity of this client at that server.
    pub uuid: String,
    /// The client's certificate chain, PEM-encoded.
    pub client_chain: String,
    /// The root certificate by which the server's certificate is checked,
    /// PEM-encoded.
    pub root_cert: String,
}

/// What a [`ServerSpec`] holds, as mathematical values.
pub struct ServerSpecView {
    pub marcv_address: Seq<char>,
    pub uuid: Seq<char>,
    pub client_chain: Seq<char>,
    pub root_cert: Seq<char>,
}

impl View for ServerSpec {
    type V = ServerSpecView;

    open spec fn view(&self) -> ServerSpecView {
        ServerSpecView {
            marcv_address: self.marcv_address@,
            uuid: self.uuid@,
            client_chain: self.client_chain@,
            root_cert: self.root_cert@,
        }
    }
}

impl ServerSpec {
    /// A copy that shares nothing with the entry.
    pub fn duplicate(&self) -> (copy: ServerSpec)
        ensures
            copy@ == self@,
    {
        ServerSpec {
            marcv_address: self.marcv_address.clone(),
            uuid: self.uuid.clone(),
            client_chain: self.client_chain.clone(),
            root_cert: self.root_cert.clone(),
        }
    }
}

/// The registry of connections: the trust entries in the order in which they
/// were added. Nothing keeps the same entry from standing in it twice.
#[derive(Clone, Debug, PartialEq, Eq)]
pub struct RegistrationState {
    pub server_specs: Vec<ServerSpec>,
}

impl View for RegistrationState {
    type V = Seq<ServerSpecView>;

    open spec fn view(&self) -> Seq<ServerSpecView> {
        self.server_specs@.map_values(|entry: ServerSpec| entry@)
    }
}

/// The entries that stay when those marked in `removed` leave, in their
/// order.
pub open spec fn remaining<T>(entries: Seq<T>, removed: Seq<bool>) -> Seq<T>
    decreases entries.len(),
{
    if entries.len() == 0 || removed.len() != entries.len() {
        entries
    } else if removed.last() {
        remaining(entries.drop_last(), removed.drop_last())
    } else {
        remaining(entries.drop_last(), removed.drop_last()).push(entries.last())
    }
}

/// What stays of a registry, taken as values, is what stays of its values.
proof fn lemma_remaining_views(entries: Seq<ServerSpec>, removed: Seq<bool>)
    ensures
        remaining(entries, removed).map_values(|entry: ServerSpec| entry@) == remaining(
            entries.map_values(|entry: ServerSpec| entry@),
            removed,
        ),
    decreases entries.len(),
{
    let views = entries.map_values(|entry: ServerSpec| entry@);
    if entries.len() == 0 || removed.len() != entries.len() {
        assert(remaining(entries, removed).map_values(|entry: ServerSpec| entry@) =~= remaining(
            views,
            removed,
        ));
    } else {
        lemma_remaining_views(entries.drop_last(), removed.drop_last());
        assert(views.drop_last() =~= entries.drop_last().map_values(|entry: ServerSpec| entry@));
        assert(remaining(entries, removed).map_values(|entry: ServerSpec| entry@) =~= remaining(
            views,
            removed,
        ));
    }
}

/// Where the answer about an entry is settled by the entry, what stays is
/// the entries for which the answer is `false`, in their order.
pub proof fn lemma_remaining_is_filter<T>(
    entries: Seq<T>,
    removed: Seq<bool>,
    selected: spec_fn(T) -> bool,
)
    requires
        removed.len() == entries.len(),
        forall|i: int| 0 <= i < entries.len() ==> removed[i] == selected(#[trigger] entries[i]),
    ensures
        remaining(entries, removed) == entries.filter(|entry: T| !selected(entry)),
    decreases entries.len(),
{
    reveal(Seq::filter);
    if entries.len() > 0 {
        lemma_remaining_is_filter(entries.drop_last(), removed.drop_last(), selected);
    }
}

/// Nothing is added by a removal, and where no entry is marked, nothing
/// leaves.
pub proof fn lemma_remaining_bounds<T>(entries: Seq<T>, removed: Seq<bool>)
    requires
        removed.len() == entries.len(),
    ensures
        remaining(entries, removed).len() <= entries.len(),
        (forall|i: int| 0 <= i < removed.len() ==> !removed[i]) ==> remaining(entries, removed)
            == entries,
        (forall|i: int| 0 <= i < removed.len() ==> removed[i]) ==> remaining(entries, removed)
            == Seq::<T>::empty(),
    decreases entries.len(),
{
    if entries.len() > 0 {
        lemma_remaining_bounds(entries.drop_last(), removed.drop_last());
        if forall|i: int| 0 <= i < removed.len() ==> !removed[i] {
            assert(forall|i: int|
                0 <= i < removed.drop_last().len() ==> !removed.drop_last()[i]) by {
                assert forall|i: int| 0 <= i < removed.drop_last().len() implies !removed.drop_last()[i] by {
                    assert(removed.drop_last()[i] == removed[i]);
                }
            }
            assert(entries.drop_last().push(entries.last()) =~= entries);
        }
        if forall|i: int| 0 <= i < removed.len() ==> removed[i] {
            assert forall|i: int| 0 <= i < removed.drop_last().len() implies removed.drop_last()[i] by {
                assert(removed.drop_last()[i] == removed[i]);
            }
        }
    } else {
        assert(entries =~= Seq::<T>::empty());
    }
}

/// `verdicts` holds, for each entry in turn, an answer that `selected` may
/// give when asked about it.
pub open spec fn judged<F: Fn(&ServerSpec) -> bool>(
    entries: Seq<ServerSpec>,
    selected: F,
    verdicts: Seq<bool>,
) -> bool {
    &&& verdicts.len() == entries.len()
    &&& forall|i: int|
        0 <= i < entries.len() ==> selected.ensures((&#[trigger] entries[i],), verdicts[i])
}

impl RegistrationState {
    /// Removes the entries that `selected` answers `true` for. It is asked
    /// about each entry once, from the first to the last; the others stay, in
    /// their order. Returns how many entries left.
    pub fn remove<F: Fn(&ServerSpec) -> bool>(&mut self, selected: F) -> (removed: usize)
        requires
            forall|entry: &ServerSpec| #[trigger] selected.requires((entry,)),
        ensures
            exists|verdicts: Seq<bool>|
                #[trigger] judged(old(self).server_specs@, selected, verdicts)
                    && final(self).server_specs@ == remaining(old(self).server_specs@, verdicts)
                    && final(self)@ == remaining(old(self)@, verdicts),
            removed == old(self).server_specs@.len() - final(self).server_specs@.len(),
    {
        let ghost entries = self.server_specs@;
        let count = self.server_specs.len();
        let mut taken: Vec<ServerSpec> = Vec::new();
        core::mem::swap(&mut self.server_specs, &mut taken);
        let mut rest = reversed(taken);
        let ghost mut verdicts: Seq<bool> = Seq::empty();
        let mut removed: usize = 0;
        while rest.len() > 0
            invariant
                forall|entry: &ServerSpec| #[trigger] selected.requires((entry,)),
                rest@.len() <= entries.len() == count,
                verdicts.len() == entries.len() - rest@.len(),
                forall|k: int| 0 <= k < rest@.len() ==> rest@[k] == entries[entries.len() - 1 - k],
                judged(entries.take(verdicts.len() as int), selected, verdicts),
                self.server_specs@ == remaining(entries.take(verdicts.len() as int), verdicts),
                removed + self.server_specs@.len() == verdicts.len(),
            decreases rest@.len(),
        {
            let ghost done = verdicts.len() as int;
            let entry = rest.pop().unwrap();
            assert(entry == entries[done]);
            let gone = selected(&entry);
            proof {
                let before = verdicts;
                verdicts = verdicts.push(gone);
                assert(entries.take(done + 1).drop_last() =~= entries.take(done));
                assert(verdicts.drop_last() =~= before);
                assert(entries.take(done + 1).last() == entry);
            }
            if gone {
                removed += 1;
            } else {
                self.server_specs.push(entry);
            }
        }
        assert(entries.take(entries.len() as int) =~= entries);
        proof {
            lemma_remaining_views(entries, verdicts);
        }
        removed
    }

    /// The registry without entries.
    pub fn empty_state() -> (state: RegistrationState)
        ensures
            state@ == Seq::<ServerSpecView>::empty(),
    {
        let state = RegistrationState { server_specs: Vec::new() };
        assert(state@ =~= Seq::<ServerSpecView>::empty());
        state
    }

    /// Appends an entry. An entry equal to it may already be there: both
    /// stay.
    pub fn add_server_spec(&mut self, server_spec: ServerSpec)
        ensures
            final(self)@ == old(self)@.push(server_spec@),
            final(self).server_specs@ == old(self).server_specs@.push(server_spec),
    {
        self.server_specs.push(server_spec);
        assert(self@ =~= old(self)@.push(server_spec@));
    }

    /// Removes every entry.
    pub fn remove_all(&mut self)
        ensures
            final(self)@ == Seq::<ServerSpecView>::empty(),
    {
        self.server_specs.clear();
        assert(self@ =~= Seq::<ServerSpecView>::empty());
    }

    /// Two copies of the registry, which share nothing with it or with each
    /// other.
    pub fn duplicate_for_concurrent_read(&self) -> (copies: (RegistrationState, RegistrationState))
        ensures
            copies.0@ == self@,
            copies.1@ == self@,
    {
        (self.duplicate(), self.duplicate())
    }

    /// A copy that shares nothing with the registry.
    pub fn duplicate(&self) -> (copy: RegistrationState)
        ensures
            copy@ == self@,
    {
        let mut server_specs: Vec<ServerSpec> = Vec::new();
        let mut i: usize = 0;
        while i < self.server_specs.len()
            invariant
                i <= self.server_specs@.len(),
                server_specs@.len() == i,
                forall|k: int| 0 <= k < i ==> server_specs@[k]@ == self.server_specs@[k]@,
            decreases self.server_specs@.len() - i,
        {
            server_specs.push(self.server_specs[i].duplicate());
            i += 1;
        }
        let copy = RegistrationState { server_specs };
        assert(copy@ =~= self@);
        copy
    }
}

} // verus!
