//! Auction bookkeeping accessors over a generic storage provider.
//!
//! The surrounding node reads and writes the era's auction records —
//! bids, delegators, era validators, the era identifier and the
//! seigniorage-recipients snapshot — under well-known names through a
//! storage provider that the host implements.  The accessors pin down
//! exactly which value is read or written and which error comes back
//! when a name, key variant or value is missing; an in-memory provider
//! proves the contracts are satisfiable and serves the tests.

use vstd::prelude::*;
use vstd::string::StrSliceExecFns;
use vstd::string::StringSliceAdditionalSpecFns;
use crate::base::bytes_eq;

verus! {

/// Name under which the bids are stored.
pub const BIDS_KEY: &'static str = "bids";

/// Name under which the delegators are stored.
pub const DELEGATORS_KEY: &'static str = "delegators";

/// Name under which the era validators are stored.
pub const ERA_VALIDATORS_KEY: &'static str = "era_validators";

/// Name under which the era identifier is stored.
pub const ERA_ID_KEY: &'static str = "era_id";

/// Name under which the seigniorage-recipients snapshot is stored.
pub const SEIGNIORAGE_RECIPIENTS_SNAPSHOT_KEY: &'static str = "seigniorage_recipients_snapshot";

/// An unforgeable reference to one stored value.
#[derive(Clone, Copy, PartialEq, Eq, Structural, Debug)]
pub struct URef(pub u64);

/// A key in the era's global storage.
#[derive(Clone, Copy, PartialEq, Eq, Structural, Debug)]
pub enum Key {
    Uref(URef),
    Account(u64),
    HashAddr(u64),
}

impl Key {
    /// The underlying unforgeable reference, if this key is one.
    pub fn into_uref(self) -> (r: Option<URef>)
        ensures
            r == spec_into_uref(self),
    {
        match self {
            Key::Uref(u) => Some(u),
            _ => None,
        }
    }
}

pub open spec fn spec_into_uref(k: Key) -> Option<URef> {
    match k {
        Key::Uref(u) => Option::Some(u),
        _ => Option::<URef>::None,
    }
}

/// Identifier of an era.
pub type EraId = u64;

/// One validator's bid.
#[derive(Clone, Copy, PartialEq, Eq, Structural, Debug)]
pub struct Bid {
    pub validator: u64,
    pub staked_amount: u64,
    pub delegation_rate: u8,
}

/// All bids of the era.
pub struct Bids {
    pub entries: Vec<Bid>,
}

impl View for Bids {
    type V = Seq<Bid>;

    open spec fn view(&self) -> Seq<Bid> {
        self.entries@
    }
}

/// One delegation.
#[derive(Clone, Copy, PartialEq, Eq, Structural, Debug)]
pub struct Delegator {
    pub delegator: u64,
    pub validator: u64,
    pub staked_amount: u64,
}

/// All delegators of the era.
pub struct Delegators {
    pub entries: Vec<Delegator>,
}

impl View for Delegators {
    type V = Seq<Delegator>;

    open spec fn view(&self) -> Seq<Delegator> {
        self.entries@
    }
}

/// One validator of one era, with its weight.
#[derive(Clone, Copy, PartialEq, Eq, Structural, Debug)]
pub struct EraValidatorEntry {
    pub era: EraId,
    pub validator: u64,
    pub weight: u64,
}

/// The validator sets of the coming eras.
pub struct EraValidators {
    pub entries: Vec<EraValidatorEntry>,
}

impl View for EraValidators {
    type V = Seq<EraValidatorEntry>;

    open spec fn view(&self) -> Seq<EraValidatorEntry> {
        self.entries@
    }
}

/// One seigniorage recipient of one era.
#[derive(Clone, Copy, PartialEq, Eq, Structural, Debug)]
pub struct SnapshotEntry {
    pub era: EraId,
    pub validator: u64,
    pub stake: u64,
    pub delegation_rate: u8,
}

/// The seigniorage-recipients snapshot.
pub struct SeigniorageRecipientsSnapshot {
    pub entries: Vec<SnapshotEntry>,
}

impl View for SeigniorageRecipientsSnapshot {
    type V = Seq<SnapshotEntry>;

    open spec fn view(&self) -> Seq<SnapshotEntry> {
        self.entries@
    }
}

/// Mathematical image of a stored value.
pub enum StoredView {
    Bids(Seq<Bid>),
    Delegators(Seq<Delegator>),
    EraValidators(Seq<EraValidatorEntry>),
    EraId(u64),
    Snapshot(Seq<SnapshotEntry>),
}

/// Any value the auction stores.
pub enum StoredValue {
    Bids(Bids),
    Delegators(Delegators),
    EraValidators(EraValidators),
    EraId(u64),
    Snapshot(SeigniorageRecipientsSnapshot),
}

impl View for StoredValue {
    type V = StoredView;

    open spec fn view(&self) -> StoredView {
        match self {
            StoredValue::Bids(b) => StoredView::Bids(b@),
            StoredValue::Delegators(d) => StoredView::Delegators(d@),
            StoredValue::EraValidators(e) => StoredView::EraValidators(e@),
            StoredValue::EraId(e) => StoredView::EraId(*e),
            StoredValue::Snapshot(s) => StoredView::Snapshot(s@),
        }
    }
}

impl StoredValue {
    /// A copy with the same content.
    pub fn duplicate(&self) -> (r: StoredValue)
        ensures
            r@ == self@,
    {
        match self {
            StoredValue::Bids(b) => StoredValue::Bids(Bids { entries: copy_vec_bid(&b.entries) }),
            StoredValue::Delegators(d) => StoredValue::Delegators(
                Delegators { entries: copy_vec_del(&d.entries) },
            ),
            StoredValue::EraValidators(e) => StoredValue::EraValidators(
                EraValidators { entries: copy_vec_era(&e.entries) },
            ),
            StoredValue::EraId(e) => StoredValue::EraId(*e),
            StoredValue::Snapshot(s) => StoredValue::Snapshot(
                SeigniorageRecipientsSnapshot { entries: copy_vec_snap(&s.entries) },
            ),
        }
    }
}

fn copy_vec_bid(v: &Vec<Bid>) -> (r: Vec<Bid>)
    ensures
        r@ == v@,
{
    let mut r: Vec<Bid> = Vec::new();
    let mut i: usize = 0;
    while i < v.len()
        invariant
            i <= v@.len(),
            r@ =~= v@.subrange(0, i as int),
        decreases v@.len() - i,
    {
        r.push(v[i]);
        i = i + 1;
    }
    assert(r@ =~= v@);
    r
}

fn copy_vec_del(v: &Vec<Delegator>) -> (r: Vec<Delegator>)
    ensures
        r@ == v@,
{
    let mut r: Vec<Delegator> = Vec::new();
    let mut i: usize = 0;
    while i < v.len()
        invariant
            i <= v@.len(),
            r@ =~= v@.subrange(0, i as int),
        decreases v@.len() - i,
    {
        r.push(v[i]);
        i = i + 1;
    }
    assert(r@ =~= v@);
    r
}

fn copy_vec_era(v: &Vec<EraValidatorEntry>) -> (r: Vec<EraValidatorEntry>)
    ensures
        r@ == v@,
{
    let mut r: Vec<EraValidatorEntry> = Vec::new();
    let mut i: usize = 0;
    while i < v.len()
        invariant
            i <= v@.len(),
            r@ =~= v@.subrange(0, i as int),
        decreases v@.len() - i,
    {
        r.push(v[i]);
        i = i + 1;
    }
    assert(r@ =~= v@);
    r
}

fn copy_vec_snap(v: &Vec<SnapshotEntry>) -> (r: Vec<SnapshotEntry>)
    ensures
        r@ == v@,
{
    let mut r: Vec<SnapshotEntry> = Vec::new();
    let mut i: usize = 0;
    while i < v.len()
        invariant
            i <= v@.len(),
            r@ =~= v@.subrange(0, i as int),
        decreases v@.len() - i,
    {
        r.push(v[i]);
        i = i + 1;
    }
    assert(r@ =~= v@);
    r
}

/// A provider-side failure (I/O, serialization); opaque to the auction.
#[derive(Clone, Copy, PartialEq, Eq, Structural, Debug)]
pub struct ProviderFailure(pub u64);

/// The auction's error taxonomy.
#[derive(Clone, Copy, PartialEq, Eq, Structural, Debug)]
pub enum AuctionError {
    /// No key is registered under the name.
    MissingKey,
    /// The registered key is not an unforgeable reference.
    InvalidKeyVariant,
    /// The reference points at nothing, or at a value of the wrong kind.
    MissingValue,
    /// The provider itself failed.
    Storage,
}

/// What `read_from` must yield given the store's mathematical content.
pub open spec fn spec_read(keys: Map<Seq<u8>, Key>, data: Map<URef, StoredView>, name: Seq<u8>)
    -> Result<StoredView, AuctionError> {
    if !keys.contains_key(name) {
        Result::Err(AuctionError::MissingKey)
    } else {
        match spec_into_uref(keys[name]) {
            Option::None => Result::Err(AuctionError::InvalidKeyVariant),
            Option::Some(u) => if data.contains_key(u) {
                Result::Ok(data[u])
            } else {
                Result::Err(AuctionError::MissingValue)
            },
        }
    }
}

/// Where `write_to` must put the value, or why it cannot.
pub open spec fn spec_write_target(keys: Map<Seq<u8>, Key>, name: Seq<u8>) -> Result<
    URef,
    AuctionError,
> {
    if !keys.contains_key(name) {
        Result::Err(AuctionError::MissingKey)
    } else {
        match spec_into_uref(keys[name]) {
            Option::None => Result::Err(AuctionError::InvalidKeyVariant),
            Option::Some(u) => Result::Ok(u),
        }
    }
}

/// The host's storage, as the auction sees it: named keys and a map from
/// unforgeable references to values.  A provider may fail on its own
/// account (`ProviderFailure`), but whatever it returns successfully is
/// pinned to these two maps.
pub trait StorageProvider {
    /// The named keys.
    spec fn keys_view(&self) -> Map<Seq<u8>, Key>;

    /// The stored values.
    spec fn data_view(&self) -> Map<URef, StoredView>;

    /// Whether this provider can never fail on its own account; reads and
    /// writes on such a provider always succeed.
    spec fn never_fails(&self) -> bool;

    /// Looks up a named key; never changes the store.
    fn get_key(&mut self, name: &str) -> (r: Option<Key>)
        ensures
            final(self).keys_view() == old(self).keys_view(),
            final(self).data_view() == old(self).data_view(),
            final(self).never_fails() == old(self).never_fails(),
            r == (if old(self).keys_view().contains_key(name.spec_bytes()) {
                Option::Some(old(self).keys_view()[name.spec_bytes()])
            } else {
                Option::<Key>::None
            }),
    ;

    /// Reads the value behind a reference; never changes the store.
    fn read(&mut self, uref: URef) -> (r: Result<Option<StoredValue>, ProviderFailure>)
        ensures
            final(self).keys_view() == old(self).keys_view(),
            final(self).data_view() == old(self).data_view(),
            final(self).never_fails() == old(self).never_fails(),
            old(self).never_fails() ==> r is Ok,
            r matches Ok(v) ==> (match v {
                Option::Some(sv) => old(self).data_view().contains_key(uref) && sv@ == old(
                    self,
                ).data_view()[uref],
                Option::None => !old(self).data_view().contains_key(uref),
            }),
    ;

    /// Writes a value behind a reference.
    fn write(&mut self, uref: URef, value: StoredValue) -> (r: Result<(), ProviderFailure>)
        ensures
            final(self).keys_view() == old(self).keys_view(),
            final(self).never_fails() == old(self).never_fails(),
            old(self).never_fails() ==> r is Ok,
            r matches Ok(u) ==> final(self).data_view() == old(self).data_view().insert(
                uref,
                value@,
            ),
            r matches Err(e) ==> final(self).data_view() == old(self).data_view(),
    ;
}

/// Reads the value registered under `name`: `Ok` exactly when the name
/// maps to an unforgeable reference holding a value, unless the provider
/// itself fails (`AuctionError::Storage`).
pub fn read_from<P: StorageProvider + ?Sized>(provider: &mut P, name: &str) -> (r: Result<
    StoredValue,
    AuctionError,
>)
    ensures
        final(provider).keys_view() == old(provider).keys_view(),
        final(provider).data_view() == old(provider).data_view(),
        r matches Ok(v) ==> spec_read(
            old(provider).keys_view(),
            old(provider).data_view(),
            name.spec_bytes(),
        ) == Result::<StoredView, AuctionError>::Ok(v@),
        r matches Err(e) ==> (e != AuctionError::Storage ==> spec_read(
            old(provider).keys_view(),
            old(provider).data_view(),
            name.spec_bytes(),
        ) == Result::<StoredView, AuctionError>::Err(e)),
        !old(provider).keys_view().contains_key(name.spec_bytes()) ==> r == Result::<
            StoredValue,
            AuctionError,
        >::Err(AuctionError::MissingKey),
        old(provider).keys_view().contains_key(name.spec_bytes()) && spec_into_uref(
            old(provider).keys_view()[name.spec_bytes()],
        ) is None ==> r == Result::<StoredValue, AuctionError>::Err(
            AuctionError::InvalidKeyVariant,
        ),
        final(provider).never_fails() == old(provider).never_fails(),
        old(provider).never_fails() ==> !(r == Result::<StoredValue, AuctionError>::Err(
            AuctionError::Storage,
        )),
{
    let key = match provider.get_key(name) {
        Option::Some(k) => k,
        Option::None => {
            return Err(AuctionError::MissingKey);
        },
    };
    let uref = match key.into_uref() {
        Option::Some(u) => u,
        Option::None => {
            return Err(AuctionError::InvalidKeyVariant);
        },
    };
    match provider.read(uref) {
        Result::Ok(Option::Some(v)) => Ok(v),
        Result::Ok(Option::None) => Err(AuctionError::MissingValue),
        Result::Err(_) => Err(AuctionError::Storage),
    }
}

/// Writes `value` under `name`: `Ok` exactly when the name maps to an
/// unforgeable reference, unless the provider itself fails.
pub fn write_to<P: StorageProvider + ?Sized>(
    provider: &mut P,
    name: &str,
    value: StoredValue,
) -> (r: Result<(), AuctionError>)
    ensures
        final(provider).keys_view() == old(provider).keys_view(),
        r matches Ok(u) ==> spec_write_target(old(provider).keys_view(), name.spec_bytes())
            is Ok && final(provider).data_view() == old(provider).data_view().insert(
            spec_write_target(old(provider).keys_view(), name.spec_bytes()).unwrap(),
            value@,
        ),
        r matches Err(e) ==> final(provider).data_view() == old(provider).data_view(),
        r matches Err(e) ==> (e != AuctionError::Storage ==> spec_write_target(
            old(provider).keys_view(),
            name.spec_bytes(),
        ) == Result::<URef, AuctionError>::Err(e)),
        !old(provider).keys_view().contains_key(name.spec_bytes()) ==> r == Result::<
            (),
            AuctionError,
        >::Err(AuctionError::MissingKey),
        old(provider).keys_view().contains_key(name.spec_bytes()) && spec_into_uref(
            old(provider).keys_view()[name.spec_bytes()],
        ) is None ==> r == Result::<(), AuctionError>::Err(AuctionError::InvalidKeyVariant),
        final(provider).never_fails() == old(provider).never_fails(),
        old(provider).never_fails() ==> !(r == Result::<(), AuctionError>::Err(
            AuctionError::Storage,
        )),
{
    let key = match provider.get_key(name) {
        Option::Some(k) => k,
        Option::None => {
            return Err(AuctionError::MissingKey);
        },
    };
    let uref = match key.into_uref() {
        Option::Some(u) => u,
        Option::None => {
            return Err(AuctionError::InvalidKeyVariant);
        },
    };
    match provider.write(uref, value) {
        Result::Ok(_) => Ok(()),
        Result::Err(_) => Err(AuctionError::Storage),
    }
}

/// Reads the era's bids.
pub fn get_bids<P: StorageProvider + ?Sized>(provider: &mut P) -> (r: Result<Bids, AuctionError>)
    ensures
        final(provider).keys_view() == old(provider).keys_view(),
        final(provider).data_view() == old(provider).data_view(),
        r matches Ok(b) ==> spec_read(
            old(provider).keys_view(),
            old(provider).data_view(),
            BIDS_KEY.spec_bytes(),
        ) == Result::<StoredView, AuctionError>::Ok(StoredView::Bids(b@)),
        !old(provider).keys_view().contains_key(BIDS_KEY.spec_bytes()) ==> r == Result::<
            Bids,
            AuctionError,
        >::Err(AuctionError::MissingKey),
        old(provider).keys_view().contains_key(BIDS_KEY.spec_bytes()) && spec_into_uref(
            old(provider).keys_view()[BIDS_KEY.spec_bytes()],
        ) is None ==> r == Result::<Bids, AuctionError>::Err(AuctionError::InvalidKeyVariant),
        final(provider).never_fails() == old(provider).never_fails(),
        old(provider).never_fails() ==> !(r == Result::<Bids, AuctionError>::Err(
            AuctionError::Storage,
        )),
        r matches Err(e) ==> (e != AuctionError::Storage ==> (spec_read(
            old(provider).keys_view(),
            old(provider).data_view(),
            BIDS_KEY.spec_bytes(),
        ) == Result::<StoredView, AuctionError>::Err(e) || (e == AuctionError::MissingValue
            && (spec_read(
            old(provider).keys_view(),
            old(provider).data_view(),
            BIDS_KEY.spec_bytes(),
        ) matches Ok(sv) && !(sv is Bids))))),
{
    match read_from(provider, BIDS_KEY) {
        Result::Ok(StoredValue::Bids(b)) => Ok(b),
        Result::Ok(_) => Err(AuctionError::MissingValue),
        Result::Err(e) => Err(e),
    }
}

/// Stores the era's bids.
pub fn set_bids<P: StorageProvider + ?Sized>(provider: &mut P, validators: Bids) -> (r: Result<
    (),
    AuctionError,
>)
    ensures
        final(provider).keys_view() == old(provider).keys_view(),
        r matches Ok(u) ==> spec_write_target(old(provider).keys_view(), BIDS_KEY.spec_bytes())
            is Ok && final(provider).data_view() == old(provider).data_view().insert(
            spec_write_target(old(provider).keys_view(), BIDS_KEY.spec_bytes()).unwrap(),
            StoredView::Bids(validators@),
        ),
        r matches Err(e) ==> final(provider).data_view() == old(provider).data_view(),
        !old(provider).keys_view().contains_key(BIDS_KEY.spec_bytes()) ==> r == Result::<
            (),
            AuctionError,
        >::Err(AuctionError::MissingKey),
        old(provider).keys_view().contains_key(BIDS_KEY.spec_bytes()) && spec_into_uref(
            old(provider).keys_view()[BIDS_KEY.spec_bytes()],
        ) is None ==> r == Result::<(), AuctionError>::Err(AuctionError::InvalidKeyVariant),
        final(provider).never_fails() == old(provider).never_fails(),
        old(provider).never_fails() ==> !(r == Result::<(), AuctionError>::Err(
            AuctionError::Storage,
        )),
        r matches Err(e) ==> (e != AuctionError::Storage ==> spec_write_target(
            old(provider).keys_view(),
            BIDS_KEY.spec_bytes(),
        ) == Result::<URef, AuctionError>::Err(e)),
{
    write_to(provider, BIDS_KEY, StoredValue::Bids(validators))
}

/// Reads the era's delegators.
pub fn get_delegators<P: StorageProvider + ?Sized>(provider: &mut P) -> (r: Result<
    Delegators,
    AuctionError,
>)
    ensures
        final(provider).keys_view() == old(provider).keys_view(),
        final(provider).data_view() == old(provider).data_view(),
        r matches Ok(d) ==> spec_read(
            old(provider).keys_view(),
            old(provider).data_view(),
            DELEGATORS_KEY.spec_bytes(),
        ) == Result::<StoredView, AuctionError>::Ok(StoredView::Delegators(d@)),
        !old(provider).keys_view().contains_key(DELEGATORS_KEY.spec_bytes()) ==> r == Result::<
            Delegators,
            AuctionError,
        >::Err(AuctionError::MissingKey),
        old(provider).keys_view().contains_key(DELEGATORS_KEY.spec_bytes()) && spec_into_uref(
            old(provider).keys_view()[DELEGATORS_KEY.spec_bytes()],
        ) is None ==> r == Result::<Delegators, AuctionError>::Err(AuctionError::InvalidKeyVariant),
        final(provider).never_fails() == old(provider).never_fails(),
        old(provider).never_fails() ==> !(r == Result::<Delegators, AuctionError>::Err(
            AuctionError::Storage,
        )),
        r matches Err(e) ==> (e != AuctionError::Storage ==> (spec_read(
            old(provider).keys_view(),
            old(provider).data_view(),
            DELEGATORS_KEY.spec_bytes(),
        ) == Result::<StoredView, AuctionError>::Err(e) || (e == AuctionError::MissingValue
            && (spec_read(
            old(provider).keys_view(),
            old(provider).data_view(),
            DELEGATORS_KEY.spec_bytes(),
        ) matches Ok(sv) && !(sv is Delegators))))),
{
    match read_from(provider, DELEGATORS_KEY) {
        Result::Ok(StoredValue::Delegators(d)) => Ok(d),
        Result::Ok(_) => Err(AuctionError::MissingValue),
        Result::Err(e) => Err(e),
    }
}

/// Stores the era's delegators.
pub fn set_delegators<P: StorageProvider + ?Sized>(provider: &mut P, delegators: Delegators)
    -> (r: Result<(), AuctionError>)
    ensures
        final(provider).keys_view() == old(provider).keys_view(),
        r matches Ok(u) ==> spec_write_target(
            old(provider).keys_view(),
            DELEGATORS_KEY.spec_bytes(),
        ) is Ok && final(provider).data_view() == old(provider).data_view().insert(
            spec_write_target(old(provider).keys_view(), DELEGATORS_KEY.spec_bytes()).unwrap(),
            StoredView::Delegators(delegators@),
        ),
        r matches Err(e) ==> final(provider).data_view() == old(provider).data_view(),
        !old(provider).keys_view().contains_key(DELEGATORS_KEY.spec_bytes()) ==> r == Result::<
            (),
            AuctionError,
        >::Err(AuctionError::MissingKey),
        old(provider).keys_view().contains_key(DELEGATORS_KEY.spec_bytes()) && spec_into_uref(
            old(provider).keys_view()[DELEGATORS_KEY.spec_bytes()],
        ) is None ==> r == Result::<(), AuctionError>::Err(AuctionError::InvalidKeyVariant),
        final(provider).never_fails() == old(provider).never_fails(),
        old(provider).never_fails() ==> !(r == Result::<(), AuctionError>::Err(
            AuctionError::Storage,
        )),
        r matches Err(e) ==> (e != AuctionError::Storage ==> spec_write_target(
            old(provider).keys_view(),
            DELEGATORS_KEY.spec_bytes(),
        ) == Result::<URef, AuctionError>::Err(e)),
{
    write_to(provider, DELEGATORS_KEY, StoredValue::Delegators(delegators))
}

/// Reads the validator sets of the coming eras.
pub fn get_era_validators<P: StorageProvider + ?Sized>(provider: &mut P) -> (r: Result<
    EraValidators,
    AuctionError,
>)
    ensures
        final(provider).keys_view() == old(provider).keys_view(),
        final(provider).data_view() == old(provider).data_view(),
        r matches Ok(e) ==> spec_read(
            old(provider).keys_view(),
            old(provider).data_view(),
            ERA_VALIDATORS_KEY.spec_bytes(),
        ) == Result::<StoredView, AuctionError>::Ok(StoredView::EraValidators(e@)),
        !old(provider).keys_view().contains_key(ERA_VALIDATORS_KEY.spec_bytes()) ==> r == Result::<
            EraValidators,
            AuctionError,
        >::Err(AuctionError::MissingKey),
        old(provider).keys_view().contains_key(ERA_VALIDATORS_KEY.spec_bytes()) && spec_into_uref(
            old(provider).keys_view()[ERA_VALIDATORS_KEY.spec_bytes()],
        ) is None ==> r == Result::<EraValidators, AuctionError>::Err(AuctionError::InvalidKeyVariant),
        final(provider).never_fails() == old(provider).never_fails(),
        old(provider).never_fails() ==> !(r == Result::<EraValidators, AuctionError>::Err(
            AuctionError::Storage,
        )),
        r matches Err(e) ==> (e != AuctionError::Storage ==> (spec_read(
            old(provider).keys_view(),
            old(provider).data_view(),
            ERA_VALIDATORS_KEY.spec_bytes(),
        ) == Result::<StoredView, AuctionError>::Err(e) || (e == AuctionError::MissingValue
            && (spec_read(
            old(provider).keys_view(),
            old(provider).data_view(),
            ERA_VALIDATORS_KEY.spec_bytes(),
        ) matches Ok(sv) && !(sv is EraValidators))))),
{
    match read_from(provider, ERA_VALIDATORS_KEY) {
        Result::Ok(StoredValue::EraValidators(e)) => Ok(e),
        Result::Ok(_) => Err(AuctionError::MissingValue),
        Result::Err(e) => Err(e),
    }
}

/// Stores the validator sets of the coming eras.
pub fn set_era_validators<P: StorageProvider + ?Sized>(
    provider: &mut P,
    era_validators: EraValidators,
) -> (r: Result<(), AuctionError>)
    ensures
        final(provider).keys_view() == old(provider).keys_view(),
        r matches Ok(u) ==> spec_write_target(
            old(provider).keys_view(),
            ERA_VALIDATORS_KEY.spec_bytes(),
        ) is Ok && final(provider).data_view() == old(provider).data_view().insert(
            spec_write_target(old(provider).keys_view(), ERA_VALIDATORS_KEY.spec_bytes()).unwrap(),
            StoredView::EraValidators(era_validators@),
        ),
        r matches Err(e) ==> final(provider).data_view() == old(provider).data_view(),
        !old(provider).keys_view().contains_key(ERA_VALIDATORS_KEY.spec_bytes()) ==> r == Result::<
            (),
            AuctionError,
        >::Err(AuctionError::MissingKey),
        old(provider).keys_view().contains_key(ERA_VALIDATORS_KEY.spec_bytes()) && spec_into_uref(
            old(provider).keys_view()[ERA_VALIDATORS_KEY.spec_bytes()],
        ) is None ==> r == Result::<(), AuctionError>::Err(AuctionError::InvalidKeyVariant),
        final(provider).never_fails() == old(provider).never_fails(),
        old(provider).never_fails() ==> !(r == Result::<(), AuctionError>::Err(
            AuctionError::Storage,
        )),
        r matches Err(e) ==> (e != AuctionError::Storage ==> spec_write_target(
            old(provider).keys_view(),
            ERA_VALIDATORS_KEY.spec_bytes(),
        ) == Result::<URef, AuctionError>::Err(e)),
{
    write_to(provider, ERA_VALIDATORS_KEY, StoredValue::EraValidators(era_validators))
}

/// Reads the era identifier.
pub fn get_era_id<P: StorageProvider + ?Sized>(provider: &mut P) -> (r: Result<
    EraId,
    AuctionError,
>)
    ensures
        final(provider).keys_view() == old(provider).keys_view(),
        final(provider).data_view() == old(provider).data_view(),
        r matches Ok(e) ==> spec_read(
            old(provider).keys_view(),
            old(provider).data_view(),
            ERA_ID_KEY.spec_bytes(),
        ) == Result::<StoredView, AuctionError>::Ok(StoredView::EraId(e)),
        !old(provider).keys_view().contains_key(ERA_ID_KEY.spec_bytes()) ==> r == Result::<
            EraId,
            AuctionError,
        >::Err(AuctionError::MissingKey),
        old(provider).keys_view().contains_key(ERA_ID_KEY.spec_bytes()) && spec_into_uref(
            old(provider).keys_view()[ERA_ID_KEY.spec_bytes()],
        ) is None ==> r == Result::<EraId, AuctionError>::Err(AuctionError::InvalidKeyVariant),
        final(provider).never_fails() == old(provider).never_fails(),
        old(provider).never_fails() ==> !(r == Result::<EraId, AuctionError>::Err(
            AuctionError::Storage,
        )),
        r matches Err(e) ==> (e != AuctionError::Storage ==> (spec_read(
            old(provider).keys_view(),
            old(provider).data_view(),
            ERA_ID_KEY.spec_bytes(),
        ) == Result::<StoredView, AuctionError>::Err(e) || (e == AuctionError::MissingValue
            && (spec_read(
            old(provider).keys_view(),
            old(provider).data_view(),
            ERA_ID_KEY.spec_bytes(),
        ) matches Ok(sv) && !(sv is EraId))))),
{
    match read_from(provider, ERA_ID_KEY) {
        Result::Ok(StoredValue::EraId(e)) => Ok(e),
        Result::Ok(_) => Err(AuctionError::MissingValue),
        Result::Err(e) => Err(e),
    }
}

/// Stores the era identifier.
pub fn set_era_id<P: StorageProvider + ?Sized>(provider: &mut P, era_id: u64) -> (r: Result<
    (),
    AuctionError,
>)
    ensures
        final(provider).keys_view() == old(provider).keys_view(),
        r matches Ok(u) ==> spec_write_target(old(provider).keys_view(), ERA_ID_KEY.spec_bytes())
            is Ok && final(provider).data_view() == old(provider).data_view().insert(
            spec_write_target(old(provider).keys_view(), ERA_ID_KEY.spec_bytes()).unwrap(),
            StoredView::EraId(era_id),
        ),
        r matches Err(e) ==> final(provider).data_view() == old(provider).data_view(),
        !old(provider).keys_view().contains_key(ERA_ID_KEY.spec_bytes()) ==> r == Result::<
            (),
            AuctionError,
        >::Err(AuctionError::MissingKey),
        old(provider).keys_view().contains_key(ERA_ID_KEY.spec_bytes()) && spec_into_uref(
            old(provider).keys_view()[ERA_ID_KEY.spec_bytes()],
        ) is None ==> r == Result::<(), AuctionError>::Err(AuctionError::InvalidKeyVariant),
        final(provider).never_fails() == old(provider).never_fails(),
        old(provider).never_fails() ==> !(r == Result::<(), AuctionError>::Err(
            AuctionError::Storage,
        )),
        r matches Err(e) ==> (e != AuctionError::Storage ==> spec_write_target(
            old(provider).keys_view(),
            ERA_ID_KEY.spec_bytes(),
        ) == Result::<URef, AuctionError>::Err(e)),
{
    write_to(provider, ERA_ID_KEY, StoredValue::EraId(era_id))
}

/// Reads the seigniorage-recipients snapshot.
pub fn get_seigniorage_recipients_snapshot<P: StorageProvider + ?Sized>(provider: &mut P) -> (r:
    Result<SeigniorageRecipientsSnapshot, AuctionError>)
    ensures
        final(provider).keys_view() == old(provider).keys_view(),
        final(provider).data_view() == old(provider).data_view(),
        r matches Ok(s) ==> spec_read(
            old(provider).keys_view(),
            old(provider).data_view(),
            SEIGNIORAGE_RECIPIENTS_SNAPSHOT_KEY.spec_bytes(),
        ) == Result::<StoredView, AuctionError>::Ok(StoredView::Snapshot(s@)),
        !old(provider).keys_view().contains_key(SEIGNIORAGE_RECIPIENTS_SNAPSHOT_KEY.spec_bytes()) ==> r == Result::<
            SeigniorageRecipientsSnapshot,
            AuctionError,
        >::Err(AuctionError::MissingKey),
        old(provider).keys_view().contains_key(SEIGNIORAGE_RECIPIENTS_SNAPSHOT_KEY.spec_bytes()) && spec_into_uref(
            old(provider).keys_view()[SEIGNIORAGE_RECIPIENTS_SNAPSHOT_KEY.spec_bytes()],
        ) is None ==> r == Result::<SeigniorageRecipientsSnapshot, AuctionError>::Err(AuctionError::InvalidKeyVariant),
        final(provider).never_fails() == old(provider).never_fails(),
        old(provider).never_fails() ==> !(r == Result::<SeigniorageRecipientsSnapshot, AuctionError>::Err(
            AuctionError::Storage,
        )),
        r matches Err(e) ==> (e != AuctionError::Storage ==> (spec_read(
            old(provider).keys_view(),
            old(provider).data_view(),
            SEIGNIORAGE_RECIPIENTS_SNAPSHOT_KEY.spec_bytes(),
        ) == Result::<StoredView, AuctionError>::Err(e) || (e == AuctionError::MissingValue
            && (spec_read(
            old(provider).keys_view(),
            old(provider).data_view(),
            SEIGNIORAGE_RECIPIENTS_SNAPSHOT_KEY.spec_bytes(),
        ) matches Ok(sv) && !(sv is Snapshot))))),
{
    match read_from(provider, SEIGNIORAGE_RECIPIENTS_SNAPSHOT_KEY) {
        Result::Ok(StoredValue::Snapshot(s)) => Ok(s),
        Result::Ok(_) => Err(AuctionError::MissingValue),
        Result::Err(e) => Err(e),
    }
}

/// Stores the seigniorage-recipients snapshot.
pub fn set_seigniorage_recipients_snapshot<P: StorageProvider + ?Sized>(
    provider: &mut P,
    snapshot: SeigniorageRecipientsSnapshot,
) -> (r: Result<(), AuctionError>)
    ensures
        final(provider).keys_view() == old(provider).keys_view(),
        r matches Ok(u) ==> spec_write_target(
            old(provider).keys_view(),
            SEIGNIORAGE_RECIPIENTS_SNAPSHOT_KEY.spec_bytes(),
        ) is Ok && final(provider).data_view() == old(provider).data_view().insert(
            spec_write_target(
                old(provider).keys_view(),
                SEIGNIORAGE_RECIPIENTS_SNAPSHOT_KEY.spec_bytes(),
            ).unwrap(),
            StoredView::Snapshot(snapshot@),
        ),
        r matches Err(e) ==> final(provider).data_view() == old(provider).data_view(),
        !old(provider).keys_view().contains_key(SEIGNIORAGE_RECIPIENTS_SNAPSHOT_KEY.spec_bytes()) ==> r == Result::<
            (),
            AuctionError,
        >::Err(AuctionError::MissingKey),
        old(provider).keys_view().contains_key(SEIGNIORAGE_RECIPIENTS_SNAPSHOT_KEY.spec_bytes()) && spec_into_uref(
            old(provider).keys_view()[SEIGNIORAGE_RECIPIENTS_SNAPSHOT_KEY.spec_bytes()],
        ) is None ==> r == Result::<(), AuctionError>::Err(AuctionError::InvalidKeyVariant),
        final(provider).never_fails() == old(provider).never_fails(),
        old(provider).never_fails() ==> !(r == Result::<(), AuctionError>::Err(
            AuctionError::Storage,
        )),
        r matches Err(e) ==> (e != AuctionError::Storage ==> spec_write_target(
            old(provider).keys_view(),
            SEIGNIORAGE_RECIPIENTS_SNAPSHOT_KEY.spec_bytes(),
        ) == Result::<URef, AuctionError>::Err(e)),
{
    write_to(provider, SEIGNIORAGE_RECIPIENTS_SNAPSHOT_KEY, StoredValue::Snapshot(snapshot))
}

/// The named keys of an in-memory store, as a map (later entries win).
pub open spec fn keys_map_of(s: Seq<(Vec<u8>, Key)>) -> Map<Seq<u8>, Key>
    decreases s.len(),
{
    if s.len() == 0 {
        Map::empty()
    } else {
        keys_map_of(s.drop_last()).insert(s.last().0@, s.last().1)
    }
}

/// The data of an in-memory store, as a map (later entries win).
pub open spec fn data_map_of(s: Seq<(URef, StoredValue)>) -> Map<URef, StoredView>
    decreases s.len(),
{
    if s.len() == 0 {
        Map::empty()
    } else {
        data_map_of(s.drop_last()).insert(s.last().0, s.last().1@)
    }
}

/// A storage provider held entirely in memory: registers names once and
/// never fails.  It witnesses that the provider contract is satisfiable
/// and backs the tests.
pub struct InMemoryStorage {
    pub names: Vec<(Vec<u8>, Key)>,
    pub data: Vec<(URef, StoredValue)>,
}

impl InMemoryStorage {
    /// An empty store.
    pub fn new() -> (r: InMemoryStorage)
        ensures
            r.keys_view() == Map::<Seq<u8>, Key>::empty(),
            r.data_view() == Map::<URef, StoredView>::empty(),
    {
        let r = InMemoryStorage { names: Vec::new(), data: Vec::new() };
        r
    }

    /// Registers a key under a name (a later registration wins).
    pub fn register(&mut self, name: &str, key: Key)
        ensures
            final(self).keys_view() == old(self).keys_view().insert(name.spec_bytes(), key),
            final(self).data_view() == old(self).data_view(),
    {
        let nb = name.as_bytes_vec();
        let ghost pre = self.names@;
        self.names.push((nb, key));
        proof {
            assert(self.names@.drop_last() =~= pre);
            assert(self.data_view() == old(self).data_view());
        }
    }
}

impl StorageProvider for InMemoryStorage {
    open spec fn keys_view(&self) -> Map<Seq<u8>, Key> {
        keys_map_of(self.names@)
    }

    open spec fn never_fails(&self) -> bool {
        true
    }

    open spec fn data_view(&self) -> Map<URef, StoredView> {
        data_map_of(self.data@)
    }

    fn get_key(&mut self, name: &str) -> (r: Option<Key>) {
        let nb = name.as_bytes_vec();
        let mut i: usize = self.names.len();
        proof {
            assert(self.names@.take(self.names@.len() as int) =~= self.names@);
        }
        while i > 0
            invariant
                i <= self.names@.len(),
                nb@ == name.spec_bytes(),
                keys_map_of(self.names@.take(i as int)).contains_key(nb@) == keys_map_of(
                    self.names@,
                ).contains_key(nb@),
                keys_map_of(self.names@.take(i as int)).contains_key(nb@)
                    ==> keys_map_of(self.names@.take(i as int))[nb@] == keys_map_of(
                    self.names@,
                )[nb@],
            decreases i,
        {
            proof {
                assert(self.names@.take(i as int).drop_last() =~= self.names@.take(i as int - 1));
                assert(self.names@.take(i as int).last() == self.names@[i as int - 1]);
            }
            if bytes_eq(&self.names[i - 1].0, &nb) {
                return Some(self.names[i - 1].1);
            }
            i = i - 1;
        }
        proof {
            assert(self.names@.take(0) =~= Seq::<(Vec<u8>, Key)>::empty());
        }
        None
    }

    fn read(&mut self, uref: URef) -> (r: Result<Option<StoredValue>, ProviderFailure>) {
        let mut i: usize = self.data.len();
        proof {
            assert(self.data@.take(self.data@.len() as int) =~= self.data@);
        }
        while i > 0
            invariant
                i <= self.data@.len(),
                data_map_of(self.data@.take(i as int)).contains_key(uref) == data_map_of(
                    self.data@,
                ).contains_key(uref),
                data_map_of(self.data@.take(i as int)).contains_key(uref) ==> data_map_of(
                    self.data@.take(i as int),
                )[uref] == data_map_of(self.data@)[uref],
            decreases i,
        {
            proof {
                assert(self.data@.take(i as int).drop_last() =~= self.data@.take(i as int - 1));
                assert(self.data@.take(i as int).last() == self.data@[i as int - 1]);
            }
            if self.data[i - 1].0.0 == uref.0 {
                assert(self.data@[i as int - 1].0 == uref);
                return Ok(Some(self.data[i - 1].1.duplicate()));
            }
            i = i - 1;
        }
        proof {
            assert(self.data@.take(0) =~= Seq::<(URef, StoredValue)>::empty());
        }
        Ok(None)
    }

    fn write(&mut self, uref: URef, value: StoredValue) -> (r: Result<(), ProviderFailure>) {
        let ghost pre = self.data@;
        self.data.push((uref, value));
        proof {
            assert(self.data@.drop_last() =~= pre);
        }
        Ok(())
    }
}

} // verus!
