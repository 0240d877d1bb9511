//! The report on resources: for each pod the limits and the requests of
//! processor and memory of its own container.

use crate::report::{environment, environment_line};
use crate::text::{contains, is_substring, padded, push_padded, same_text, Fill};
use vstd::prelude::*;
use vstd::string::*;

verus! {

/// A resource and how much of it.
#[derive(Debug, PartialEq, Eq)]
pub struct ResourceEntry {
    pub name: String,
    pub quantity: String,
}

/// The limits and requests of a container, each a list of resources that
/// names no resource twice.
#[derive(Debug, PartialEq, Eq)]
pub struct ResourceRequirements {
    pub limits: Option<Vec<ResourceEntry>>,
    pub requests: Option<Vec<ResourceEntry>>,
}

/// What the report reads of a container.
#[derive(Debug, PartialEq, Eq)]
pub struct Container {
    pub name: String,
    pub resources: Option<ResourceRequirements>,
}

/// What the report reads of a pod. The containers are `None` where the
/// pod has no specification.
#[derive(Debug, PartialEq, Eq)]
pub struct Pod {
    pub name: Option<String>,
    pub containers: Option<Vec<Container>>,
}

/// One row of the report.
#[derive(Debug, PartialEq, Eq)]
pub struct PrintArguments {
    pub pod: String,
    pub limit_cpu: String,
    pub limit_memory: String,
    pub request_cpu: String,
    pub request_memory: String,
}

/// The entry at `at` is the first of `entries` for the resource `key`.
pub open spec fn is_first_entry(entries: Seq<ResourceEntry>, key: Seq<char>, at: int) -> bool {
    &&& 0 <= at < entries.len()
    &&& entries[at].name@ == key
    &&& forall|j: int| 0 <= j < at ==> (#[trigger] entries[j]).name@ != key
}

/// How much of `key` the list grants: the quantity of its first entry for
/// `key`, and `N/A` where there is no list or no such entry.
pub open spec fn quantity_of(list: Option<Vec<ResourceEntry>>, key: Seq<char>) -> Seq<char> {
    match list {
        Some(entries) => quantity_in(entries@, key),
        None => "N/A"@,
    }
}

/// How much of `key` the entries grant: the quantity of the first entry
/// for `key`, and `N/A` where there is none.
pub open spec fn quantity_in(entries: Seq<ResourceEntry>, key: Seq<char>) -> Seq<char> {
    if exists|at: int| is_first_entry(entries, key, at) {
        let at = choose|at: int| is_first_entry(entries, key, at);
        entries[at].quantity@
    } else {
        "N/A"@
    }
}

/// The container at `at` is the one that the report reads: its name is
/// part of the name of the pod, it states resources, and no container
/// before it does both.
pub open spec fn is_own_container(containers: Seq<Container>, pod: Seq<char>, at: int) -> bool {
    &&& 0 <= at < containers.len()
    &&& is_substring(pod, containers[at].name@)
    &&& containers[at].resources is Some
    &&& forall|j: int|
        0 <= j < at ==> !(is_substring(pod, (#[trigger] containers[j]).name@)
            && containers[j].resources is Some)
}

/// The position of the container that the report reads of a pod called
/// `pod`, if there is one.
pub open spec fn own_container(containers: Seq<Container>, pod: Seq<char>) -> Option<int> {
    if exists|at: int| is_own_container(containers, pod, at) {
        Some(choose|at: int| is_own_container(containers, pod, at))
    } else {
        None
    }
}

/// The row `row` shows the pod `pod` with the resources `resources`.
pub open spec fn is_row_of(
    row: PrintArguments,
    pod: Seq<char>,
    resources: ResourceRequirements,
) -> bool {
    &&& row.pod@ == pod
    &&& row.limit_cpu@ == quantity_of(resources.limits, "cpu"@)
    &&& row.limit_memory@ == quantity_of(resources.limits, "memory"@)
    &&& row.request_cpu@ == quantity_of(resources.requests, "cpu"@)
    &&& row.request_memory@ == quantity_of(resources.requests, "memory"@)
}

/// The row `row` names the columns of the report.
pub open spec fn is_header(row: PrintArguments) -> bool {
    &&& row.pod@ == "pod"@
    &&& row.limit_cpu@ == "limit.cpu"@
    &&& row.limit_memory@ == "limit.memory"@
    &&& row.request_cpu@ == "request.cpu"@
    &&& row.request_memory@ == "request.memory"@
}

/// The row that the report shows for `pod`, if it shows one: a pod gives
/// a row when it has a name and a specification and one of its containers
/// is its own.
pub open spec fn row_exists(pod: Pod) -> bool {
    &&& pod.name is Some
    &&& pod.containers is Some
    &&& own_container(pod.containers->0@, pod.name->0@) is Some
}

/// One row as it is printed: the pod in 100 columns, then the four
/// quantities in 20 columns each, with a space between two columns. A text
/// that is wider than its column is not cut.
pub open spec fn row_text(
    pod: Seq<char>,
    limit_cpu: Seq<char>,
    limit_memory: Seq<char>,
    request_cpu: Seq<char>,
    request_memory: Seq<char>,
) -> Seq<char> {
    padded(pod, 100, ' ') + seq![' '] + padded(limit_cpu, 20, ' ') + seq![' '] + padded(
        limit_memory,
        20,
        ' ',
    ) + seq![' '] + padded(request_cpu, 20, ' ') + seq![' '] + padded(request_memory, 20, ' ')
}

/// The row `row` as it is printed: see [`row_text`].
pub open spec fn row_line(row: PrintArguments) -> Seq<char> {
    row_text(row.pod@, row.limit_cpu@, row.limit_memory@, row.request_cpu@, row.request_memory@)
}

/// The line that names the columns.
pub open spec fn header_line() -> Seq<char> {
    row_text("pod"@, "limit.cpu"@, "limit.memory"@, "request.cpu"@, "request.memory"@)
}

/// The resources that the report reads of `pod`: those of its own
/// container.
pub open spec fn own_resources(pod: Pod) -> ResourceRequirements {
    pod.containers->0@[own_container(pod.containers->0@, pod.name->0@)->0].resources->0
}

/// The line of `pod`, if the report has one for it.
pub open spec fn pod_line(pod: Pod) -> Option<Seq<char>> {
    if row_exists(pod) {
        let resources = own_resources(pod);
        Some(
            row_text(
                pod.name->0@,
                quantity_of(resources.limits, "cpu"@),
                quantity_of(resources.limits, "memory"@),
                quantity_of(resources.requests, "cpu"@),
                quantity_of(resources.requests, "memory"@),
            ),
        )
    } else {
        None
    }
}

/// The lines of the first `upto` of `pods`: one for each pod that has a
/// row, in their order.
pub open spec fn pod_lines(pods: Seq<Pod>, upto: int) -> Seq<Seq<char>>
    decreases upto,
{
    if upto <= 0 {
        Seq::empty()
    } else {
        let before = pod_lines(pods, upto - 1);
        match pod_line(pods[upto - 1]) {
            Some(line) => before.push(line),
            None => before,
        }
    }
}

/// `rows` are the rows of the report on `pods`: the headers, then for each
/// pod its row, or nothing where it gives none.
pub open spec fn is_table_of(rows: Seq<Option<PrintArguments>>, pods: Seq<Pod>) -> bool {
    &&& rows.len() == pods.len() + 1
    &&& rows[0] matches Some(head) && is_header(head)
    &&& forall|i: int| 0 <= i < pods.len() ==> ((#[trigger] rows[i + 1]) is Some <==> row_exists(pods[i]))
    &&& forall|i: int|
        0 <= i < pods.len() && row_exists(pods[i]) ==> is_row_of(
            (#[trigger] rows[i + 1])->0,
            pods[i].name->0@,
            own_resources(pods[i]),
        )
}

/// The lines of a table are the line of the headers and then the lines of
/// the pods.
pub proof fn lemma_table_lines(rows: Seq<Option<PrintArguments>>, pods: Seq<Pod>, upto: int)
    requires
        is_table_of(rows, pods),
        0 <= upto <= pods.len(),
    ensures
        row_lines(rows, upto + 1) == seq![header_line()] + pod_lines(pods, upto),
    decreases upto,
{
    if upto == 0 {
        assert(row_lines(rows, 0) =~= Seq::<Seq<char>>::empty());
    } else {
        lemma_table_lines(rows, pods, upto - 1);
    }
}

/// The lines for the first `upto` of `rows`: one for each row that is
/// there, in their order.
pub open spec fn row_lines(rows: Seq<Option<PrintArguments>>, upto: int) -> Seq<Seq<char>>
    decreases upto,
{
    if upto <= 0 {
        Seq::empty()
    } else {
        let before = row_lines(rows, upto - 1);
        match rows[upto - 1] {
            Some(row) => before.push(row_line(row)),
            None => before,
        }
    }
}

/// Only one entry is the first for a resource.
pub proof fn lemma_first_entry_unique(entries: Seq<ResourceEntry>, key: Seq<char>, at: int)
    requires
        is_first_entry(entries, key, at),
    ensures
        quantity_in(entries, key) == entries[at].quantity@,
{
}

/// Only one container is the pod's own.
pub proof fn lemma_own_container_unique(containers: Seq<Container>, pod: Seq<char>, at: int)
    requires
        is_own_container(containers, pod, at),
    ensures
        own_container(containers, pod) == Some(at),
{
}

/// How much of `key` the list grants: see [`quantity_of`].
pub fn extract_info(btree: &Option<Vec<ResourceEntry>>, key: &str) -> (quantity: String)
    ensures
        quantity@ == quantity_of(*btree, key@),
{
    match btree {
        Some(info) => {
            let mut at: usize = 0;
            while at < info.len()
                invariant
                    at <= info.len(),
                    *btree == Some(*info),
                    forall|j: int| 0 <= j < at ==> (#[trigger] info@[j]).name@ != key@,
                decreases info.len() - at,
            {
                if same_text(info[at].name.as_str(), key) {
                    proof {
                        lemma_first_entry_unique(info@, key@, at as int);
                    }
                    return info[at].quantity.clone();
                }
                at += 1;
            }
            assert forall|c: int| !is_first_entry(info@, key@, c) by {}
            "N/A".to_owned()
        },
        None => "N/A".to_owned(),
    }
}

/// The position of the pod's own container: see [`own_container`].
pub fn find_own_container(containers: &Vec<Container>, pod: &str) -> (position: Option<usize>)
    ensures
        match position {
            Some(at) => {
                &&& own_container(containers@, pod@) == Some(at as int)
                &&& is_own_container(containers@, pod@, at as int)
            },
            None => own_container(containers@, pod@) is None,
        },
{
    let mut at: usize = 0;
    while at < containers.len()
        invariant
            at <= containers.len(),
            forall|j: int|
                0 <= j < at ==> !(is_substring(pod@, (#[trigger] containers@[j]).name@)
                    && containers@[j].resources is Some),
        decreases containers.len() - at,
    {
        if contains(pod, containers[at].name.as_str()) && containers[at].resources.is_some() {
            proof {
                lemma_own_container_unique(containers@, pod@, at as int);
            }
            return Some(at);
        }
        at += 1;
    }
    assert forall|c: int| !is_own_container(containers@, pod@, c) by {}
    None
}

/// The row that the report shows for `p`: its name, and the limits and
/// requests of processor and memory of its own container.
pub fn collect_info(p: &Pod) -> (info: Option<PrintArguments>)
    ensures
        info is Some <==> row_exists(*p),
        info matches Some(row) ==> is_row_of(row, p.name->0@, own_resources(*p)),
{
    let containers = match &p.containers {
        Some(containers) => containers,
        None => {
            return None;
        },
    };
    let name = match &p.name {
        Some(name) => name,
        None => {
            return None;
        },
    };
    match find_own_container(containers, name.as_str()) {
        Some(at) => {
            match &containers[at].resources {
                Some(resource) => Some(
                    PrintArguments {
                        pod: name.clone(),
                        limit_cpu: extract_info(&resource.limits, "cpu"),
                        limit_memory: extract_info(&resource.limits, "memory"),
                        request_cpu: extract_info(&resource.requests, "cpu"),
                        request_memory: extract_info(&resource.requests, "memory"),
                    },
                ),
                None => unreached(),
            }
        },
        None => None,
    }
}

impl PrintArguments {
    /// The row that heads the report.
    pub fn headers() -> (row: PrintArguments)
        ensures
            is_header(row),
    {
        PrintArguments {
            pod: "pod".to_owned(),
            limit_cpu: "limit.cpu".to_owned(),
            limit_memory: "limit.memory".to_owned(),
            request_cpu: "request.cpu".to_owned(),
            request_memory: "request.memory".to_owned(),
        }
    }

    /// The row as it is printed: see [`row_line`].
    pub fn line(&self) -> (line: String)
        ensures
            line@ == row_line(*self),
    {
        proof {
            reveal_strlit(" ");
        }
        let mut line = String::new();
        push_padded(&mut line, self.pod.as_str(), 100, Fill::Space);
        line.append(" ");
        push_padded(&mut line, self.limit_cpu.as_str(), 20, Fill::Space);
        line.append(" ");
        push_padded(&mut line, self.limit_memory.as_str(), 20, Fill::Space);
        line.append(" ");
        push_padded(&mut line, self.request_cpu.as_str(), 20, Fill::Space);
        line.append(" ");
        push_padded(&mut line, self.request_memory.as_str(), 20, Fill::Space);
        line
    }
}

/// The lines of the report: the execution context, then one line for each
/// row that is there.
pub fn print_result(context: &str, info: &Vec<Option<PrintArguments>>) -> (lines: Vec<String>)
    ensures
        lines.deep_view() == seq![environment_line(context@)] + row_lines(
            info@,
            info.len() as int,
        ),
{
    let mut lines: Vec<String> = Vec::new();
    lines.push(environment(context));
    let mut i: usize = 0;
    while i < info.len()
        invariant
            i <= info.len(),
            lines.deep_view() == seq![environment_line(context@)] + row_lines(info@, i as int),
        decreases info.len() - i,
    {
        let ghost before = lines.deep_view();
        if let Some(row) = &info[i] {
            let line = row.line();
            let ghost shown = line@;
            lines.push(line);
            assert(before.push(shown) =~= seq![environment_line(context@)] + row_lines(
                info@,
                i as int,
            ).push(shown));
        }
        i += 1;
    }
    lines
}

/// The rows of the report on `pods`: see [`is_table_of`].
pub fn collect_rows(pods: &Vec<Pod>) -> (rows: Vec<Option<PrintArguments>>)
    ensures
        is_table_of(rows@, pods@),
{
    let mut rows: Vec<Option<PrintArguments>> = Vec::new();
    rows.push(Some(PrintArguments::headers()));
    let mut i: usize = 0;
    while i < pods.len()
        invariant
            i <= pods.len(),
            rows.len() == i + 1,
            rows@[0] matches Some(head) && is_header(head),
            forall|j: int| 0 <= j < i ==> ((#[trigger] rows@[j + 1]) is Some <==> row_exists(pods@[j])),
            forall|j: int|
                0 <= j < i && row_exists(pods@[j]) ==> is_row_of(
                    (#[trigger] rows@[j + 1])->0,
                    pods@[j].name->0@,
                    own_resources(pods@[j]),
                ),
        decreases pods.len() - i,
    {
        rows.push(collect_info(&pods[i]));
        i += 1;
    }
    rows
}

/// The lines of the report on `pods`: the execution context, the line of
/// the headers, then one line for each pod that has a row, in the order of
/// the pods.
pub fn process(context: &str, pods: &Vec<Pod>) -> (lines: Vec<String>)
    ensures
        lines.deep_view() == seq![environment_line(context@), header_line()] + pod_lines(
            pods@,
            pods.len() as int,
        ),
{
    let rows = collect_rows(pods);
    let lines = print_result(context, &rows);
    proof {
        lemma_table_lines(rows@, pods@, pods.len() as int);
    }
    lines
}

} // verus!
