//! The hub's side of the link: its wire protocol, the binding of scene
//! nodes to hub entities, and the reconciliation of entity state with the
//! events that the hub streams.

pub mod api;
pub mod protocol;
pub mod ui;

use crate::hass::protocol::{
    EventView, HassEvent, HassRequest, HassResponse, RequestView, ResponseView,
};
use crate::json::parse::{tree_of, MAX_DEPTH};
use crate::json::{Json, JsonView};
use vstd::prelude::*;

verus! {

/// The fields of a list, built up character by character: a comma starts a
/// new field, any other character goes to the end of the last one. The empty
/// list has one empty field.
pub open spec fn fields(list: Seq<char>) -> Seq<Seq<char>>
    decreases list.len(),
{
    if list.len() == 0 {
        seq![Seq::empty()]
    } else {
        let before = fields(list.drop_last());
        if list.last() == ',' {
            before.push(Seq::empty())
        } else {
            before.drop_last().push(before.last().push(list.last()))
        }
    }
}

/// The fields of a comma-separated list; the empty list has none.
pub open spec fn separated(list: Seq<char>) -> Seq<Seq<char>> {
    if list.len() == 0 {
        Seq::empty()
    } else {
        fields(list)
    }
}

/// The strings of `items` that are not empty, in order.
pub open spec fn non_empty(items: Seq<Seq<char>>) -> Seq<Seq<char>>
    decreases items.len(),
{
    if items.len() == 0 {
        Seq::empty()
    } else if items.last().len() == 0 {
        non_empty(items.drop_last())
    } else {
        non_empty(items.drop_last()).push(items.last())
    }
}

/// Splits a comma-separated list with `serde_with`'s
/// `StringWithSeparator<CommaSeparator, String>`, fed the list through
/// serde's `StrDeserializer`. That deserializer gives an empty collection
/// for the empty string and otherwise the pieces of `str::split(",")`, empty
/// pieces included; it cannot fail on strings.
#[verifier::external_body]
fn split_list(list: &str) -> (pieces: Vec<String>)
    ensures
        pieces.deep_view() == separated(list@),
{
    let source = serde::de::value::StrDeserializer::<serde::de::value::Error>::new(list);
    <serde_with::StringWithSeparator<
        serde_with::formats::CommaSeparator,
        String,
    > as serde_with::DeserializeAs<Vec<String>>>::deserialize_as(source).unwrap_or_default()
}

/// The metadata that binds a scene node to the hub: the identifiers of the
/// entities that the node stands for.
#[derive(Debug, Clone, PartialEq, Eq)]
pub struct HassExtras {
    pub entity_ids: Vec<String>,
}

/// The entity identifiers that a metadata value lists: the non-empty fields
/// of its string member `entity_ids`. `None` where the value has no such
/// member, so that the metadata is somebody else's.
pub open spec fn extras_of_json(j: JsonView) -> Option<Seq<Seq<char>>> {
    match j.member("entity_ids"@) {
        Some(JsonView::Str(list)) => Some(non_empty(separated(list))),
        _ => None,
    }
}

/// The entity identifiers that a metadata text lists; `None` where the text
/// is no JSON or lists none.
pub open spec fn extras_of_text(text: Seq<char>) -> Option<Seq<Seq<char>>> {
    match tree_of(text, MAX_DEPTH as nat) {
        None => None,
        Some(j) => extras_of_json(j),
    }
}

/// The identifiers of optional metadata.
pub open spec fn extras_view(extras: Option<HassExtras>) -> Option<Seq<Seq<char>>> {
    match extras {
        Some(e) => Some(e.entity_ids.deep_view()),
        None => None,
    }
}

impl HassExtras {
    /// Reads a node's metadata from a JSON value.
    pub fn from_json(j: &Json) -> (extras: Option<HassExtras>)
        ensures
            extras_view(extras) == extras_of_json(j@),
    {
        match j.get("entity_ids") {
            Some(Json::Str(list)) => {
                let pieces = split_list(list.as_str());
                let ghost all = pieces.deep_view();
                let mut entity_ids: Vec<String> = Vec::new();
                let mut i: usize = 0;
                while i < pieces.len()
                    invariant
                        i <= pieces.len(),
                        all == pieces.deep_view(),
                        entity_ids.deep_view() == non_empty(all.take(i as int)),
                    decreases pieces.len() - i,
                {
                    let ghost before = all.take(i as int);
                    let ghost now = all.take(i + 1);
                    assert(now.drop_last() =~= before);
                    assert(now.last() == pieces[i as int]@);
                    if !pieces[i].as_str().is_empty() {
                        let ghost kept = entity_ids.deep_view();
                        entity_ids.push(pieces[i].clone());
                        assert(entity_ids.deep_view() =~= kept.push(pieces[i as int]@));
                    }
                    i += 1;
                }
                assert(all.take(i as int) =~= all);
                Some(HassExtras { entity_ids })
            },
            _ => None,
        }
    }

    /// Reads a node's metadata from its text.
    pub fn parse(text: &str) -> (extras: Option<HassExtras>)
        ensures
            extras_view(extras) == extras_of_text(text@),
    {
        match Json::parse(text) {
            None => None,
            Some(j) => HassExtras::from_json(&j),
        }
    }
}

/// Marks a scene node whose metadata listed hub entities.
#[derive(Debug, Clone, PartialEq, Eq)]
pub struct HassDevice;

/// The hub entity that a child of a device stands for.
#[derive(Debug, Clone, PartialEq, Eq)]
pub struct HassEntity {
    pub entity_id: String,
}

/// The state of a hub entity, as last reported; empty until the first
/// report.
#[derive(Debug, Clone, PartialEq, Eq)]
pub struct HassEntityState {
    pub state: String,
}

/// A child of a device: an entity and its state slot.
#[derive(Debug, Clone, PartialEq, Eq)]
pub struct EntityRecord {
    pub entity: HassEntity,
    pub state: HassEntityState,
}

impl View for EntityRecord {
    type V = (Seq<char>, Seq<char>);

    /// The entity's identifier and its state.
    open spec fn view(&self) -> (Seq<char>, Seq<char>) {
        (self.entity.entity_id@, self.state.state@)
    }
}

/// Identifier and state of each record.
pub open spec fn records_view(records: Seq<EntityRecord>) -> Seq<(Seq<char>, Seq<char>)> {
    Seq::new(records.len(), |i: int| records[i]@)
}

/// New records for `ids`: one for each, in order, with an empty state.
pub open spec fn fresh_records(ids: Seq<Seq<char>>) -> Seq<(Seq<char>, Seq<char>)> {
    Seq::new(ids.len(), |i: int| (ids[i], Seq::empty()))
}

/// What a scene node with the metadata `extras` becomes: nothing where the
/// metadata lists no hub entities, else a device with one child for each
/// identifier, in order, each with an empty state.
pub fn load_entities_from_gltf(extras: &str) -> (bound: Option<(HassDevice, Vec<EntityRecord>)>)
    ensures
        match extras_of_text(extras@) {
            None => bound is None,
            Some(ids) => bound matches Some(b) && records_view(b.1@) == fresh_records(ids),
        },
{
    match HassExtras::parse(extras) {
        None => None,
        Some(parsed) => {
            let ids = parsed.entity_ids;
            let mut children: Vec<EntityRecord> = Vec::new();
            let mut i: usize = 0;
            while i < ids.len()
                invariant
                    i <= ids.len(),
                    children.len() == i,
                    forall|k: int|
                        0 <= k < i ==> #[trigger] children[k]@ == (ids[k]@, Seq::<char>::empty()),
                decreases ids.len() - i,
            {
                children.push(
                    EntityRecord {
                        entity: HassEntity { entity_id: ids[i].clone() },
                        state: HassEntityState { state: String::new() },
                    },
                );
                i += 1;
            }
            assert(records_view(children@) =~= fresh_records(ids.deep_view()));
            Some((HassDevice, children))
        },
    }
}

/// The state that an event reports for the entity `entity_id`: the string
/// under `state` of the new state of a `state_changed` event for that
/// entity. `None` for any other message, for another entity, and where the
/// new state holds no such string.
pub open spec fn reported_state(event: ResponseView, entity_id: Seq<char>) -> Option<Seq<char>> {
    match event {
        ResponseView::Event { event: EventView::StateChanged { entity_id: changed, new_state, .. } } => {
            if changed == entity_id {
                match new_state.member("state"@) {
                    Some(JsonView::Str(state)) => Some(state),
                    _ => None,
                }
            } else {
                None
            }
        },
        _ => None,
    }
}

/// The state of the entity `entity_id` after `events`, from `state`: what
/// the last event that reports a state for it reports, and `state` where
/// none does.
pub open spec fn state_after(
    state: Seq<char>,
    entity_id: Seq<char>,
    events: Seq<ResponseView>,
) -> Seq<char>
    decreases events.len(),
{
    if events.len() == 0 {
        state
    } else {
        match reported_state(events.last(), entity_id) {
            Some(reported) => reported,
            None => state_after(state, entity_id, events.drop_last()),
        }
    }
}

/// After any run of events, an entity has the state of the last event that
/// reports one for it: where `events[last]` reports a state for the entity
/// and no later event does, that state is the outcome, whatever the state
/// before and the events before.
pub proof fn lemma_last_report_wins(
    state: Seq<char>,
    entity_id: Seq<char>,
    events: Seq<ResponseView>,
    last: int,
)
    requires
        0 <= last < events.len(),
        reported_state(events[last], entity_id) is Some,
        forall|k: int| last < k < events.len() ==> reported_state(#[trigger] events[k], entity_id)
            is None,
    ensures
        state_after(state, entity_id, events) == reported_state(events[last], entity_id).unwrap(),
    decreases events.len(),
{
    if last < events.len() - 1 {
        let earlier = events.drop_last();
        assert(reported_state(events[events.len() - 1], entity_id) is None);
        assert(earlier[last] == events[last]);
        assert forall|k: int| last < k < earlier.len() implies reported_state(
            #[trigger] earlier[k],
            entity_id,
        ) is None by {
            assert(earlier[k] == events[k]);
        }
        lemma_last_report_wins(state, entity_id, earlier, last);
    }
}

/// An entity for which no event reports a state keeps the state it had.
pub proof fn lemma_no_report_keeps_state(
    state: Seq<char>,
    entity_id: Seq<char>,
    events: Seq<ResponseView>,
)
    requires
        forall|k: int| 0 <= k < events.len() ==> reported_state(#[trigger] events[k], entity_id)
            is None,
    ensures
        state_after(state, entity_id, events) == state,
    decreases events.len(),
{
    if events.len() > 0 {
        let earlier = events.drop_last();
        assert(reported_state(events[events.len() - 1], entity_id) is None);
        assert forall|k: int| 0 <= k < earlier.len() implies reported_state(
            #[trigger] earlier[k],
            entity_id,
        ) is None by {
            assert(earlier[k] == events[k]);
        }
        lemma_no_report_keeps_state(state, entity_id, earlier);
    }
}

/// The models of a run of responses.
pub open spec fn responses_view(events: Seq<HassResponse>) -> Seq<ResponseView> {
    Seq::new(events.len(), |i: int| events[i]@)
}

/// Writes the state that `event` reports into every record of the entity it
/// is about; the other records, and every identifier, stay as they are.
pub fn apply_event(records: &mut Vec<EntityRecord>, event: &HassResponse)
    ensures
        final(records).len() == old(records).len(),
        forall|i: int|
            0 <= i < old(records).len() ==> (#[trigger] final(records)[i]).entity.entity_id@ == old(
                records,
            )[i].entity.entity_id@ && final(records)[i].state.state@ == (match reported_state(
                event@,
                old(records)[i].entity.entity_id@,
            ) {
                Some(reported) => reported,
                None => old(records)[i].state.state@,
            }),
{
    match event {
        HassResponse::Event { event: HassEvent::StateChanged { entity_id, old_state: _, new_state } } => {
            let state: &String = match new_state.get("state") {
                Some(Json::Str(s)) => s,
                _ => {
                    return ;
                },
            };
            let ghost before = records@;
            let mut i: usize = 0;
            while i < records.len()
                invariant
                    i <= records.len(),
                    records.len() == before.len(),
                    reported_state(event@, entity_id@) == Some(state@),
                    event@ matches ResponseView::Event {
                        event: EventView::StateChanged { entity_id: changed, .. },
                    } && changed == entity_id@,
                    forall|k: int|
                        0 <= k < before.len() ==> (#[trigger] records[k]).entity.entity_id@
                            == before[k].entity.entity_id@,
                    forall|k: int|
                        0 <= k < i ==> (#[trigger] records[k]).state.state@ == (match reported_state(
                            event@,
                            before[k].entity.entity_id@,
                        ) {
                            Some(reported) => reported,
                            None => before[k].state.state@,
                        }),
                    forall|k: int|
                        i <= k < before.len() ==> (#[trigger] records[k]).state.state@
                            == before[k].state.state@,
                decreases records.len() - i,
            {
                if records[i].entity.entity_id == *entity_id {
                    let updated = EntityRecord {
                        entity: HassEntity { entity_id: records[i].entity.entity_id.clone() },
                        state: HassEntityState { state: state.clone() },
                    };
                    records.set(i, updated);
                }
                i += 1;
            }
        },
        _ => {},
    }
}

/// Whether `event` asks for an update of `records` that is skipped: it is
/// a state change of an entity that has a record here, and its new state
/// holds no state string.
pub open spec fn skips_update(event: ResponseView, records: Seq<EntityRecord>) -> bool {
    match event {
        ResponseView::Event { event: EventView::StateChanged { entity_id, new_state, .. } } => {
            match new_state.member("state"@) {
                Some(JsonView::Str(_)) => false,
                _ => exists|i: int|
                    0 <= i < records.len() && (#[trigger] records[i]).entity.entity_id@
                        == entity_id,
            }
        },
        _ => false,
    }
}

/// Whether [`apply_event`] skips an update of `records` for `event`, which
/// is worth a warning.
pub fn skipped_update(records: &Vec<EntityRecord>, event: &HassResponse) -> (skipped: bool)
    ensures
        skipped == skips_update(event@, records@),
{
    match event {
        HassResponse::Event { event: HassEvent::StateChanged { entity_id, old_state: _, new_state } } => {
            match new_state.get("state") {
                Some(Json::Str(_)) => false,
                _ => {
                    let mut i: usize = 0;
                    assert(skips_update(event@, records@) == (exists|k: int|
                        0 <= k < records.len() && (#[trigger] records[k]).entity.entity_id@
                            == entity_id@));
                    while i < records.len()
                        invariant
                            i <= records.len(),
                            skips_update(event@, records@) == (exists|k: int|
                                0 <= k < records.len() && (#[trigger] records[k]).entity.entity_id@
                                    == entity_id@),
                            forall|k: int|
                                0 <= k < i ==> (#[trigger] records[k]).entity.entity_id@
                                    != entity_id@,
                        decreases records.len() - i,
                    {
                        if records[i].entity.entity_id == *entity_id {
                            return true;
                        }
                        i += 1;
                    }
                    false
                },
            }
        },
        _ => false,
    }
}

/// Whether `after` is `before` brought up to date by `events`: the same
/// entities in the same order, each with the state of the last event that
/// reports one for it, and with its earlier state where none does.
pub open spec fn reconciled(
    before: Seq<EntityRecord>,
    after: Seq<EntityRecord>,
    events: Seq<ResponseView>,
) -> bool {
    &&& after.len() == before.len()
    &&& forall|i: int|
        0 <= i < before.len() ==> (#[trigger] after[i]).entity.entity_id@
            == before[i].entity.entity_id@ && after[i].state.state@ == state_after(
            before[i].state.state@,
            before[i].entity.entity_id@,
            events,
        )
}

/// Writes into the records what `events` report, event by event: each
/// record ends with the state of the last event that reports one for its
/// entity, and keeps its state where none does. Identifiers stay as they
/// are.
pub fn update_state(records: &mut Vec<EntityRecord>, events: &Vec<HassResponse>)
    ensures
        reconciled(old(records)@, final(records)@, responses_view(events@)),
{
    let ghost before = records@;
    let ghost all = responses_view(events@);
    let mut n: usize = 0;
    while n < events.len()
        invariant
            n <= events.len(),
            all == responses_view(events@),
            records.len() == before.len(),
            forall|i: int|
                0 <= i < before.len() ==> (#[trigger] records[i]).entity.entity_id@
                    == before[i].entity.entity_id@ && records[i].state.state@ == state_after(
                    before[i].state.state@,
                    before[i].entity.entity_id@,
                    all.take(n as int),
                ),
        decreases events.len() - n,
    {
        let ghost seen = all.take(n as int);
        let ghost now = all.take(n + 1);
        assert(now.drop_last() =~= seen);
        assert(now.last() == events[n as int]@);
        apply_event(records, &events[n]);
        n += 1;
    }
    assert(all.take(n as int) =~= all);
}

/// The request that every session starts with: a subscription to the
/// events that report state changes.
pub fn startup_request() -> (request: HassRequest)
    ensures
        request@ == (RequestView::SubscribeEvents { event_type: Some("state_changed"@) }),
{
    HassRequest::SubscribeEvents { event_type: Some(String::from_str("state_changed")) }
}

/// A scene node that is bound to the hub: the node, its device mark and
/// its children, one for each entity.
#[derive(Debug, Clone, PartialEq, Eq)]
pub struct DeviceNode {
    pub node: u64,
    pub device: HassDevice,
    pub children: Vec<EntityRecord>,
}

/// The scene nodes that are bound to the hub. Records hang under their
/// device and nowhere else, so each has exactly one device as its parent.
#[derive(Debug, PartialEq, Eq)]
pub struct Scene {
    pub devices: Vec<DeviceNode>,
}

impl Scene {
    /// Whether `node` is bound.
    pub open spec fn is_bound(&self, node: u64) -> bool {
        exists|i: int| 0 <= i < self.devices.len() && (#[trigger] self.devices[i]).node == node
    }

    /// No node is bound twice.
    pub open spec fn wf(&self) -> bool {
        forall|i: int, j: int|
            0 <= i < j < self.devices.len() ==> (#[trigger] self.devices[i]).node
                != (#[trigger] self.devices[j]).node
    }

    /// A scene without bound nodes.
    pub fn new() -> (scene: Scene)
        ensures
            scene.devices.len() == 0,
            scene.wf(),
    {
        Scene { devices: Vec::new() }
    }

    /// Whether `node` is bound.
    pub fn has(&self, node: u64) -> (found: bool)
        ensures
            found == self.is_bound(node),
    {
        let mut i: usize = 0;
        while i < self.devices.len()
            invariant
                i <= self.devices.len(),
                forall|k: int| 0 <= k < i ==> (#[trigger] self.devices[k]).node != node,
            decreases self.devices.len() - i,
        {
            if self.devices[i].node == node {
                return true;
            }
            i += 1;
        }
        false
    }

    /// Binds `node` on its first appearance with metadata that lists hub
    /// entities: the node becomes a device with one child for each
    /// identifier, in order, each with an empty state. A node that is bound
    /// already, and metadata that lists none, leave the scene as it is.
    pub fn bind(&mut self, node: u64, extras: &str) -> (bound: bool)
        ensures
            bound == (!old(self).is_bound(node) && extras_of_text(extras@) is Some),
            !bound ==> *final(self) == *old(self),
            bound ==> final(self).is_bound(node) && final(self).devices@.len() == old(
                self,
            ).devices@.len() + 1 && final(self).devices@.drop_last() == old(self).devices@
                && final(self).devices@.last().node == node && records_view(
                final(self).devices@.last().children@,
            ) == fresh_records(extras_of_text(extras@).unwrap()),
            old(self).wf() ==> final(self).wf(),
    {
        if self.has(node) {
            return false;
        }
        match load_entities_from_gltf(extras) {
            None => false,
            Some((device, children)) => {
                let ghost before = self.devices@;
                self.devices.push(DeviceNode { node, device, children });
                proof {
                    assert(self.devices@.drop_last() =~= before);
                    assert(self.devices[self.devices.len() - 1].node == node);
                }
                true
            },
        }
    }

    /// Releases `node` when it leaves the scene: its device goes, and its
    /// children with it. The other devices stay, in their order. A node that
    /// is not bound changes nothing.
    pub fn unbind(&mut self, node: u64) -> (released: bool)
        ensures
            released == old(self).is_bound(node),
            !released ==> *final(self) == *old(self),
            released ==> exists|i: int|
                0 <= i < old(self).devices.len() && (#[trigger] old(self).devices[i]).node == node
                    && final(self).devices@ == old(self).devices@.remove(i),
            old(self).wf() ==> final(self).wf() && !final(self).is_bound(node),
    {
        let mut i: usize = 0;
        while i < self.devices.len()
            invariant
                i <= self.devices.len(),
                *self == *old(self),
                forall|k: int| 0 <= k < i ==> (#[trigger] self.devices[k]).node != node,
            decreases self.devices.len() - i,
        {
            if self.devices[i].node == node {
                let ghost before = self.devices@;
                self.devices.remove(i);
                proof {
                    assert(self.devices@ == before.remove(i as int));
                    if old(self).wf() {
                        assert forall|a: int, b: int|
                            0 <= a < b < self.devices.len() implies (#[trigger] self.devices[a]).node
                            != (#[trigger] self.devices[b]).node by {
                            let a0 = if a < i { a } else { a + 1 };
                            let b0 = if b < i { b } else { b + 1 };
                            assert(self.devices[a] == before[a0]);
                            assert(self.devices[b] == before[b0]);
                        }
                        assert forall|k: int| 0 <= k < self.devices.len() implies (
                        #[trigger] self.devices[k]).node != node by {
                            let k0 = if k < i { k } else { k + 1 };
                            assert(self.devices[k] == before[k0]);
                            assert(before[i as int].node == node);
                        }
                    }
                }
                return true;
            }
            i += 1;
        }
        false
    }

    /// Whether `event` asks for an update that is skipped, of a child of
    /// some device.
    pub open spec fn skips(&self, event: ResponseView) -> bool {
        exists|d: int|
            0 <= d < self.devices.len() && skips_update(
                event,
                (#[trigger] self.devices[d]).children@,
            )
    }

    /// Whether [`Scene::update_state`] skips an update for `event`, which is
    /// worth a warning.
    pub fn skipped_update(&self, event: &HassResponse) -> (skipped: bool)
        ensures
            skipped == self.skips(event@),
    {
        let mut d: usize = 0;
        while d < self.devices.len()
            invariant
                d <= self.devices.len(),
                forall|k: int|
                    0 <= k < d ==> !skips_update(event@, (#[trigger] self.devices[k]).children@),
            decreases self.devices.len() - d,
        {
            if skipped_update(&self.devices[d].children, event) {
                return true;
            }
            d += 1;
        }
        false
    }

    /// Brings the children of every device up to date with `events`.
    pub fn update_state(&mut self, events: &Vec<HassResponse>)
        ensures
            final(self).devices.len() == old(self).devices.len(),
            forall|d: int|
                0 <= d < old(self).devices.len() ==> (#[trigger] final(self).devices[d]).node == old(
                    self,
                ).devices[d].node && reconciled(
                    old(self).devices[d].children@,
                    final(self).devices[d].children@,
                    responses_view(events@),
                ),
            old(self).wf() ==> final(self).wf(),
    {
        let ghost before = self.devices@;
        let mut d: usize = 0;
        while d < self.devices.len()
            invariant
                d <= self.devices.len(),
                self.devices.len() == before.len(),
                forall|k: int|
                    0 <= k < before.len() ==> (#[trigger] self.devices[k]).node == before[k].node,
                forall|k: int|
                    0 <= k < d ==> reconciled(
                        before[k].children@,
                        (#[trigger] self.devices[k]).children@,
                        responses_view(events@),
                    ),
                forall|k: int| d <= k < before.len() ==> (#[trigger] self.devices[k]) == before[k],
            decreases self.devices.len() - d,
        {
            update_state(&mut self.devices[d].children, events);
            d += 1;
        }
    }
}

} // verus!
