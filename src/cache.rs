//! The acquisition of an emote's image: the local store first, then two
//! addresses on the network, written back to the store on success. The
//! steps are decided here; the caller performs the lookups and requests.

use vstd::prelude::*;
use crate::decode::{load_still, still_image};
use crate::plugin::EmoteData;

verus! {

/// The address tried first for an emote's image.
pub open spec fn primary_uri_spec(id: Seq<char>) -> Seq<char> {
    "https://static-cdn.jtvnw.net/emoticons/v2/"@ + id + "/default/light/3.0"@
}

/// The address tried when the first gives nothing.
pub open spec fn secondary_uri_spec(id: Seq<char>) -> Seq<char> {
    "https://static-cdn.jtvnw.net/emoticons/v1/"@ + id + "/3.0"@
}

pub fn primary_uri(id: &str) -> (r: String)
    ensures
        r@ == primary_uri_spec(id@),
{
    let mut s = String::from_str("https://static-cdn.jtvnw.net/emoticons/v2/");
    s.append(id);
    s.append("/default/light/3.0");
    s
}

pub fn secondary_uri(id: &str) -> (r: String)
    ensures
        r@ == secondary_uri_spec(id@),
{
    let mut s = String::from_str("https://static-cdn.jtvnw.net/emoticons/v1/");
    s.append(id);
    s.append("/3.0");
    s
}

/// Whether fetched bytes hold an image that can be decoded.
pub open spec fn is_image(b: Seq<u8>) -> bool {
    still_image(b) is Some
}

pub fn validate_image(b: &[u8]) -> (r: bool)
    ensures
        r == is_image(b@),
{
    load_still(b).is_some()
}

/// Where an acquisition stands.
#[derive(Debug, Clone, Copy, PartialEq, Eq, Structural)]
pub enum FetchStage {
    /// Waiting for the store's answer.
    LookUp,
    /// Waiting for the first address.
    Primary,
    /// Waiting for the second address.
    Secondary,
    /// Over.
    Done,
}

/// What the caller reports back.
#[derive(Debug)]
pub enum FetchEvent {
    /// The store holds the emote.
    Found(EmoteData),
    /// The store does not hold it.
    Missing,
    /// The request gave these bytes.
    Fetched(Vec<u8>),
    /// The request gave nothing.
    FetchFailed,
}

/// What the caller is asked to do next.
#[derive(Debug)]
pub enum FetchAction {
    /// Look the id up in the store.
    LookUp(String),
    /// Request this address.
    Get(String),
    /// Write the emote to the store (a failed write is only reported), then
    /// hand it on.
    Store(EmoteData),
    /// Hand the emote from the store on.
    Deliver(EmoteData),
    /// Drop this occurrence of the emote.
    GiveUp,
}

pub ghost enum EventModel {
    Found(Seq<char>, Seq<char>, Seq<u8>),
    Missing,
    Fetched(Seq<u8>),
    FetchFailed,
}

pub ghost enum ActionModel {
    LookUp(Seq<char>),
    Get(Seq<char>),
    Store(Seq<char>, Seq<char>, Seq<u8>),
    Deliver(Seq<char>, Seq<char>, Seq<u8>),
    GiveUp,
}

impl FetchEvent {
    pub open spec fn view(&self) -> EventModel {
        match self {
            FetchEvent::Found(d) => EventModel::Found(d.id@, d.name@, d.img@),
            FetchEvent::Missing => EventModel::Missing,
            FetchEvent::Fetched(b) => EventModel::Fetched(b@),
            FetchEvent::FetchFailed => EventModel::FetchFailed,
        }
    }
}

impl FetchAction {
    pub open spec fn view(&self) -> ActionModel {
        match self {
            FetchAction::LookUp(id) => ActionModel::LookUp(id@),
            FetchAction::Get(uri) => ActionModel::Get(uri@),
            FetchAction::Store(d) => ActionModel::Store(d.id@, d.name@, d.img@),
            FetchAction::Deliver(d) => ActionModel::Deliver(d.id@, d.name@, d.img@),
            FetchAction::GiveUp => ActionModel::GiveUp,
        }
    }
}

/// The next stage and action of the acquisition of emote `id`, named `name`
/// in chat, on `ev`: a stored emote is handed on as stored; a missing one is
/// requested from the first address, then from the second; the first bytes
/// that come back are stored and handed on if they hold an image, else the
/// occurrence is dropped, as it is when both requests fail.
pub open spec fn fetch_next(stage: FetchStage, id: Seq<char>, name: Seq<char>, ev: EventModel) -> (
    FetchStage,
    ActionModel,
) {
    match stage {
        FetchStage::LookUp => match ev {
            EventModel::Found(i, n, b) => (FetchStage::Done, ActionModel::Deliver(i, n, b)),
            EventModel::Missing => (FetchStage::Primary, ActionModel::Get(primary_uri_spec(id))),
            _ => (FetchStage::Done, ActionModel::GiveUp),
        },
        FetchStage::Primary => match ev {
            EventModel::Fetched(b) => (FetchStage::Done, if is_image(b) {
                ActionModel::Store(id, name, b)
            } else {
                ActionModel::GiveUp
            }),
            EventModel::FetchFailed => (
                FetchStage::Secondary,
                ActionModel::Get(secondary_uri_spec(id)),
            ),
            _ => (FetchStage::Done, ActionModel::GiveUp),
        },
        FetchStage::Secondary => match ev {
            EventModel::Fetched(b) => (FetchStage::Done, if is_image(b) {
                ActionModel::Store(id, name, b)
            } else {
                ActionModel::GiveUp
            }),
            _ => (FetchStage::Done, ActionModel::GiveUp),
        },
        FetchStage::Done => (FetchStage::Done, ActionModel::GiveUp),
    }
}

/// The acquisition of one emote referenced in chat.
#[derive(Debug)]
pub struct EmoteFetch {
    pub id: String,
    pub name: String,
    pub stage: FetchStage,
}

impl EmoteFetch {
    /// Starts the acquisition of emote `id`, named `name` in chat: the store
    /// is asked first.
    pub fn start(id: String, name: String) -> (r: (EmoteFetch, FetchAction))
        ensures
            r.0.id@ == id@ && r.0.name@ == name@,
            r.0.stage == FetchStage::LookUp,
            r.1@ == ActionModel::LookUp(id@),
    {
        let key = id.clone();
        (EmoteFetch { id, name, stage: FetchStage::LookUp }, FetchAction::LookUp(key))
    }

    /// Takes the caller's report and says what to do next.
    pub fn step(&mut self, ev: FetchEvent) -> (r: FetchAction)
        ensures
            final(self).id@ == old(self).id@,
            final(self).name@ == old(self).name@,
            (final(self).stage, r@) == fetch_next(old(self).stage, old(self).id@, old(self).name@, ev@),
    {
        match self.stage {
            FetchStage::LookUp => match ev {
                FetchEvent::Found(d) => {
                    self.stage = FetchStage::Done;
                    FetchAction::Deliver(d)
                },
                FetchEvent::Missing => {
                    self.stage = FetchStage::Primary;
                    FetchAction::Get(primary_uri(self.id.as_str()))
                },
                _ => {
                    self.stage = FetchStage::Done;
                    FetchAction::GiveUp
                },
            },
            FetchStage::Primary => match ev {
                FetchEvent::Fetched(b) => {
                    self.stage = FetchStage::Done;
                    self.found(b)
                },
                FetchEvent::FetchFailed => {
                    self.stage = FetchStage::Secondary;
                    FetchAction::Get(secondary_uri(self.id.as_str()))
                },
                _ => {
                    self.stage = FetchStage::Done;
                    FetchAction::GiveUp
                },
            },
            FetchStage::Secondary => match ev {
                FetchEvent::Fetched(b) => {
                    self.stage = FetchStage::Done;
                    self.found(b)
                },
                _ => {
                    self.stage = FetchStage::Done;
                    FetchAction::GiveUp
                },
            },
            FetchStage::Done => FetchAction::GiveUp,
        }
    }

    fn found(&self, b: Vec<u8>) -> (r: FetchAction)
        ensures
            r@ == if is_image(b@) {
                ActionModel::Store(self.id@, self.name@, b@)
            } else {
                ActionModel::GiveUp
            },
    {
        if validate_image(b.as_slice()) {
            FetchAction::Store(EmoteData { id: self.id.clone(), name: self.name.clone(), img: b })
        } else {
            FetchAction::GiveUp
        }
    }
}

/// A store of emotes by id: name and image.
pub type StoreModel = Map<Seq<char>, (Seq<char>, Seq<u8>)>;

/// What the caller reports on `a`, given a store and what each address gives.
pub open spec fn respond(store: StoreModel, net: spec_fn(Seq<char>) -> Option<Seq<u8>>, a: ActionModel) -> EventModel {
    match a {
        ActionModel::LookUp(i) => if store.contains_key(i) {
            EventModel::Found(i, store[i].0, store[i].1)
        } else {
            EventModel::Missing
        },
        ActionModel::Get(uri) => match net(uri) {
            Some(b) => EventModel::Fetched(b),
            None => EventModel::FetchFailed,
        },
        _ => EventModel::FetchFailed,
    }
}

/// A whole acquisition against a store and a network: its last action and
/// how many requests went out.
pub open spec fn run_fetch(id: Seq<char>, name: Seq<char>, store: StoreModel, net: spec_fn(Seq<char>) -> Option<Seq<u8>>) -> (ActionModel, nat) {
    let (s1, a1) = fetch_next(FetchStage::LookUp, id, name, respond(store, net, ActionModel::LookUp(id)));
    if s1 == FetchStage::Done {
        (a1, 0)
    } else {
        let (s2, a2) = fetch_next(s1, id, name, respond(store, net, a1));
        if s2 == FetchStage::Done {
            (a2, 1)
        } else {
            let (s3, a3) = fetch_next(s2, id, name, respond(store, net, a2));
            (a3, 2)
        }
    }
}

/// The store after the caller carried out `a`.
pub open spec fn stored(store: StoreModel, a: ActionModel) -> StoreModel {
    match a {
        ActionModel::Store(i, n, b) => store.insert(i, (n, b)),
        _ => store,
    }
}

/// The image an action hands on, if any.
pub open spec fn handed_on(a: ActionModel) -> Option<Seq<u8>> {
    match a {
        ActionModel::Store(_, _, b) => Some(b),
        ActionModel::Deliver(_, _, b) => Some(b),
        _ => None,
    }
}

/// Once an acquisition has handed an image on and the store has been
/// written, a second acquisition of the same id, under any name, makes no
/// request and hands on the same bytes.
pub proof fn lemma_cache_idempotent(
    id: Seq<char>,
    name: Seq<char>,
    name2: Seq<char>,
    store: StoreModel,
    net: spec_fn(Seq<char>) -> Option<Seq<u8>>,
)
    ensures
        ({
            let (a1, _) = run_fetch(id, name, store, net);
            let (a2, gets) = run_fetch(id, name2, stored(store, a1), net);
            handed_on(a1) is Some ==> gets == 0 && a2 is Deliver && handed_on(a2) == handed_on(a1)
        }),
{
}

/// The two requests go to the two addresses in order, and no acquisition
/// makes more than two.
pub proof fn lemma_fetch_requests(
    id: Seq<char>,
    name: Seq<char>,
    store: StoreModel,
    net: spec_fn(Seq<char>) -> Option<Seq<u8>>,
)
    ensures
        run_fetch(id, name, store, net).1 <= 2,
        store.contains_key(id) ==> run_fetch(id, name, store, net) == (
            ActionModel::Deliver(id, store[id].0, store[id].1),
            0nat,
        ),
        !store.contains_key(id) && net(primary_uri_spec(id)) is None ==> run_fetch(id, name, store, net) == (
            match net(secondary_uri_spec(id)) {
                Some(b) => if is_image(b) {
                    ActionModel::Store(id, name, b)
                } else {
                    ActionModel::GiveUp
                },
                None => ActionModel::GiveUp,
            },
            2nat,
        ),
{
}

} // verus!
