//! Source discovery: from a target and the entities that the inventory
//! lists for it to the endpoints that are streamed.

use crate::cli_args::NamespaceAndService;
use crate::logs::{StreamEndpoint, StreamEndpointView};
use crate::text::{contains, is_substring};
use vstd::prelude::*;
use vstd::string::*;

verus! {

/// An entity as the inventory lists it: its name, where it has one, and
/// the names of its sub-components in the order the inventory gives them.
#[derive(Debug, Clone, PartialEq, Eq)]
pub struct Entity {
    pub name: Option<String>,
    pub sub_components: Vec<String>,
}

/// The mathematical value of an [`Entity`].
pub struct EntityView {
    pub name: Option<Seq<char>>,
    pub sub_components: Seq<Seq<char>>,
}

impl View for Entity {
    type V = EntityView;

    open spec fn view(&self) -> EntityView {
        EntityView {
            name: match self.name {
                Some(n) => Some(n@),
                None => None,
            },
            sub_components: self.sub_components.deep_view(),
        }
    }
}

impl DeepView for Entity {
    type V = EntityView;

    open spec fn deep_view(&self) -> EntityView {
        self@
    }
}

/// How the log of an entity is to be read: from which container, and
/// whether the stream stays open for what is written later.
#[derive(Debug, Clone, PartialEq, Eq)]
pub struct LogParams {
    pub container: Option<String>,
    pub follow: bool,
}

/// The mathematical value of [`LogParams`].
pub struct LogParamsView {
    pub container: Option<Seq<char>>,
    pub follow: bool,
}

impl View for LogParams {
    type V = LogParamsView;

    open spec fn view(&self) -> LogParamsView {
        LogParamsView {
            container: match self.container {
                Some(c) => Some(c@),
                None => None,
            },
            follow: self.follow,
        }
    }
}

/// The entities that the inventory listed for one target.
#[derive(Debug, Clone, PartialEq, Eq)]
pub struct TargetInventory {
    pub target: NamespaceAndService,
    pub entities: Vec<Entity>,
}

/// The mathematical value of a [`TargetInventory`].
pub struct TargetInventoryView {
    pub namespace: Seq<char>,
    pub service: Seq<char>,
    pub entities: Seq<EntityView>,
}

impl View for TargetInventory {
    type V = TargetInventoryView;

    open spec fn view(&self) -> TargetInventoryView {
        TargetInventoryView {
            namespace: self.target.namespace@,
            service: self.target.service@,
            entities: self.entities.deep_view(),
        }
    }
}

impl DeepView for TargetInventory {
    type V = TargetInventoryView;

    open spec fn deep_view(&self) -> TargetInventoryView {
        self@
    }
}

/// The name under which a service runs within a namespace: the two joined
/// by a hyphen. It is the label of every endpoint of the service.
pub open spec fn source_label_of(namespace: Seq<char>, service: Seq<char>) -> Seq<char> {
    namespace + seq!['-'] + service
}

/// The selector that finds the entities of an instance by its label.
pub open spec fn instance_selector_of(instance: Seq<char>) -> Seq<char> {
    "app.kubernetes.io/instance="@ + instance
}

/// `names[at]` holds `token`, and no name before it does.
pub open spec fn is_first_match(names: Seq<Seq<char>>, token: Seq<char>, at: int) -> bool {
    &&& 0 <= at < names.len()
    &&& is_substring(names[at], token)
    &&& forall|j: int| 0 <= j < at ==> !is_substring(#[trigger] names[j], token)
}

/// The position of the first name that holds `token`, if any name does.
pub open spec fn first_match(names: Seq<Seq<char>>, token: Seq<char>) -> Option<int> {
    if exists|at: int| is_first_match(names, token, at) {
        Some(choose|at: int| is_first_match(names, token, at))
    } else {
        None
    }
}

/// What is streamed of `entity` for the service `token`: the entity's name
/// and its first sub-component whose name holds `token`. An entity without
/// a name, or without such a sub-component, is not streamed. Later
/// sub-components that also hold the token are never streamed.
pub open spec fn log_params_of(entity: EntityView, token: Seq<char>) -> Option<
    (Seq<char>, LogParamsView),
> {
    match (entity.name, first_match(entity.sub_components, token)) {
        (Some(name), Some(at)) => Some(
            (name, LogParamsView { container: Some(entity.sub_components[at]), follow: true }),
        ),
        _ => None,
    }
}

/// The endpoint that `entity` gives for the service `token` of
/// `namespace`: what is streamed of the entity, under the label of the
/// service.
pub open spec fn endpoint_of(namespace: Seq<char>, token: Seq<char>, entity: EntityView) -> Option<
    StreamEndpointView,
> {
    match log_params_of(entity, token) {
        Some((name, params)) => Some(
            StreamEndpointView {
                source_label: source_label_of(namespace, token),
                namespace,
                entity_id: name,
                container_id: params.container->0,
            },
        ),
        None => None,
    }
}

/// The endpoints of the first `upto` of `entities`, in the order of the
/// entities.
pub open spec fn resolved_upto(
    namespace: Seq<char>,
    token: Seq<char>,
    entities: Seq<EntityView>,
    upto: int,
) -> Seq<StreamEndpointView>
    decreases upto,
{
    if upto <= 0 {
        Seq::empty()
    } else {
        let before = resolved_upto(namespace, token, entities, upto - 1);
        match endpoint_of(namespace, token, entities[upto - 1]) {
            Some(endpoint) => before.push(endpoint),
            None => before,
        }
    }
}

/// The endpoints of a target: one for each entity that has a name and a
/// sub-component whose name holds the service, in the order of the
/// entities.
pub open spec fn resolved(namespace: Seq<char>, token: Seq<char>, entities: Seq<EntityView>) -> Seq<
    StreamEndpointView,
> {
    resolved_upto(namespace, token, entities, entities.len() as int)
}

/// The endpoints of the first `upto` targets, target after target.
pub open spec fn resolved_all_upto(inventories: Seq<TargetInventoryView>, upto: int) -> Seq<
    StreamEndpointView,
>
    decreases upto,
{
    if upto <= 0 {
        Seq::empty()
    } else {
        let target = inventories[upto - 1];
        resolved_all_upto(inventories, upto - 1) + resolved(
            target.namespace,
            target.service,
            target.entities,
        )
    }
}

/// The endpoints of a run: those of each target, in the order of the
/// targets.
pub open spec fn resolved_all(inventories: Seq<TargetInventoryView>) -> Seq<StreamEndpointView> {
    resolved_all_upto(inventories, inventories.len() as int)
}

/// At most one position is the first match.
pub proof fn lemma_first_match_unique(names: Seq<Seq<char>>, token: Seq<char>, at: int)
    requires
        is_first_match(names, token, at),
    ensures
        first_match(names, token) == Some(at),
{
}

/// A target has at most one endpoint for each entity: of the
/// sub-components that hold the service only the first is streamed.
pub proof fn lemma_one_endpoint_at_most(
    namespace: Seq<char>,
    token: Seq<char>,
    entities: Seq<EntityView>,
    upto: int,
)
    requires
        0 <= upto <= entities.len(),
    ensures
        resolved_upto(namespace, token, entities, upto).len() <= upto,
    decreases upto,
{
    if upto > 0 {
        lemma_one_endpoint_at_most(namespace, token, entities, upto - 1);
    }
}

/// The label of the endpoints of `service` in `namespace`.
pub fn source_label(namespace: &str, service: &str) -> (label: String)
    ensures
        label@ == source_label_of(namespace@, service@),
{
    proof {
        reveal_strlit("-");
    }
    let mut label = namespace.to_owned();
    label.append("-");
    label.append(service);
    label
}

/// The selector by which the inventory is asked for the entities of
/// `instance`.
pub fn instance_selector(instance: &str) -> (selector: String)
    ensures
        selector@ == instance_selector_of(instance@),
{
    let mut selector = "app.kubernetes.io/instance=".to_owned();
    selector.append(instance);
    selector
}

/// The position of the first of `names` that holds `token`.
pub fn first_matching(names: &Vec<String>, token: &str) -> (position: Option<usize>)
    ensures
        match position {
            Some(at) => first_match(names.deep_view(), token@) == Some(at as int),
            None => first_match(names.deep_view(), token@) is None,
        },
{
    let ghost view = names.deep_view();
    let mut at: usize = 0;
    while at < names.len()
        invariant
            at <= names.len(),
            view == names.deep_view(),
            forall|j: int| 0 <= j < at ==> !is_substring(#[trigger] view[j], token@),
        decreases names.len() - at,
    {
        if contains(names[at].as_str(), token) {
            proof {
                lemma_first_match_unique(view, token@, at as int);
            }
            return Some(at);
        }
        at += 1;
    }
    assert forall|c: int| !is_first_match(view, token@, c) by {}
    None
}

/// What to stream of `entity` for `service`: see [`log_params_of`].
pub fn build_log_params(entity: &Entity, service: &str) -> (params: Option<(String, LogParams)>)
    ensures
        match params {
            Some((name, p)) => log_params_of(entity@, service@) == Some((name@, p@)),
            None => log_params_of(entity@, service@) is None,
        },
{
    let name = match &entity.name {
        Some(n) => n.clone(),
        None => {
            return None;
        },
    };
    match first_matching(&entity.sub_components, service) {
        Some(at) => {
            let container = entity.sub_components[at].clone();
            Some((name, LogParams { container: Some(container), follow: true }))
        },
        None => None,
    }
}

/// The endpoints of one target, given the entities that the inventory
/// listed for it: see [`resolved`].
pub fn resolve(namespace: &str, service: &str, entities: &Vec<Entity>) -> (endpoints: Vec<
    StreamEndpoint,
>)
    ensures
        endpoints.deep_view() == resolved(namespace@, service@, entities.deep_view()),
{
    let ghost all = entities.deep_view();
    let mut endpoints: Vec<StreamEndpoint> = Vec::new();
    let mut i: usize = 0;
    while i < entities.len()
        invariant
            i <= entities.len(),
            all == entities.deep_view(),
            endpoints.deep_view() == resolved_upto(namespace@, service@, all, i as int),
        decreases entities.len() - i,
    {
        if let Some((name, params)) = build_log_params(&entities[i], service) {
            if let Some(container) = params.container {
                let endpoint = StreamEndpoint {
                    source_label: source_label(namespace, service),
                    namespace: namespace.to_owned(),
                    entity_id: name,
                    container_id: container,
                };
                endpoints.push(endpoint);
            }
        }
        i += 1;
    }
    endpoints
}

/// The endpoints of a whole run: see [`resolved_all`].
pub fn resolve_all(inventories: &Vec<TargetInventory>) -> (endpoints: Vec<StreamEndpoint>)
    ensures
        endpoints.deep_view() == resolved_all(inventories.deep_view()),
{
    let ghost all = inventories.deep_view();
    let mut endpoints: Vec<StreamEndpoint> = Vec::new();
    let mut i: usize = 0;
    while i < inventories.len()
        invariant
            i <= inventories.len(),
            all == inventories.deep_view(),
            endpoints.deep_view() == resolved_all_upto(all, i as int),
        decreases inventories.len() - i,
    {
        let inventory = &inventories[i];
        let mut found = resolve(
            inventory.target.namespace.as_str(),
            inventory.target.service.as_str(),
            &inventory.entities,
        );
        endpoints.append(&mut found);
        i += 1;
    }
    endpoints
}

/// How the log of `endpoint` is read: from its one container, with the
/// stream left open for what is written later.
pub fn log_params(endpoint: &StreamEndpoint) -> (params: LogParams)
    ensures
        params@ == (LogParamsView { container: Some(endpoint@.container_id), follow: true }),
{
    LogParams { container: Some(endpoint.container_id.clone()), follow: true }
}

} // verus!
