//! The report on pods: for each pod one image, the state of its container
//! and how often it was restarted.

use crate::paint::{escape_of, is_painted, paint, Cell, Colour};
use crate::report::{environment, environment_line};
use crate::text::{
    contains, decimal, decimal_of, is_substring, padded, push_padded, same_text, trim, trimmed,
    Fill,
};
use vstd::prelude::*;
use vstd::string::*;

verus! {

/// Why a container was terminated or is waiting.
#[derive(Debug, PartialEq, Eq)]
pub struct StateDetail {
    pub reason: Option<String>,
}

/// The state of a container. The cluster fills in one of the three.
#[derive(Debug, PartialEq, Eq)]
pub struct ContainerState {
    pub running: bool,
    pub terminated: Option<StateDetail>,
    pub waiting: Option<StateDetail>,
}

/// What the cluster reports of one container.
#[derive(Debug, PartialEq, Eq)]
pub struct ContainerStatus {
    pub image: String,
    pub ready: bool,
    pub restart_count: i32,
    pub state: Option<ContainerState>,
}

/// What the report reads of a pod. A part that the cluster left out is
/// `None`.
#[derive(Debug, PartialEq, Eq)]
pub struct Pod {
    pub name: Option<String>,
    /// The image of each container of the specification, in its order.
    pub images: Option<Vec<Option<String>>>,
    /// The status of the pod, and within it the statuses of the containers.
    pub container_statuses: Option<Option<Vec<ContainerStatus>>>,
}

/// One row of the report before it is coloured.
#[derive(Debug, PartialEq, Eq)]
pub struct PodInfo {
    pub image: String,
    pub status: Cell,
    pub restart_count: Cell,
    pub name: String,
}

/// One row of the report as it is printed.
#[derive(Debug, PartialEq, Eq)]
pub struct PrintArguments {
    pub image: String,
    pub status: String,
    pub restart_count: String,
    pub name: String,
}

/// Reads one container status for the report.
pub struct ContainerStatusOps<'a> {
    pub container_status: &'a ContainerStatus,
}

/// The reason that `detail` gives, `N/A` where it gives none.
pub open spec fn reason_of(detail: StateDetail) -> Seq<char> {
    match detail.reason {
        Some(reason) => reason@,
        None => "N/A"@,
    }
}

/// The state of a container as the report words it, and its colour.
///
/// A running container is `Running`, in green. A terminated one shows the
/// reason of its end without the white space around it, in yellow, but
/// `NotReady` where it completed and is not ready. A waiting one shows the
/// reason of its wait, in red. Without any of these the state is `N/A`, in
/// white. Running comes before terminated, terminated before waiting.
pub open spec fn status_of(status: ContainerStatus) -> (Seq<char>, Colour) {
    match status.state {
        Some(state) => {
            if state.running {
                ("Running"@, Colour::Green)
            } else {
                match (state.terminated, state.waiting) {
                    (Some(ended), _) => {
                        if !status.ready && reason_of(ended) == "Completed"@ {
                            ("NotReady"@, Colour::Yellow)
                        } else {
                            (trimmed(reason_of(ended)), Colour::Yellow)
                        }
                    },
                    (None, Some(held)) => (reason_of(held), Colour::Red),
                    (None, None) => ("N/A"@, Colour::White),
                }
            }
        },
        None => ("N/A"@, Colour::White),
    }
}

/// The number of restarts as the report shows it: in red where there were
/// any, in white where there were none.
pub open spec fn restarts_of(status: ContainerStatus) -> (Seq<char>, Colour) {
    (
        decimal_of(status.restart_count as int),
        if status.restart_count != 0 {
            Colour::Red
        } else {
            Colour::White
        },
    )
}

/// The image at `at` is one that the report may show: it is given, its
/// name does not hold `istio`, and a status speaks of it.
pub open spec fn is_candidate(
    images: Seq<Option<String>>,
    statuses: Seq<ContainerStatus>,
    at: int,
) -> bool {
    &&& 0 <= at < images.len()
    &&& images[at] matches Some(image)
    &&& !is_substring(image@, "istio"@)
    &&& exists|k: int| 0 <= k < statuses.len() && (#[trigger] statuses[k]).image@ == image@
}

/// The report shows the image at `at` with the status at `with`: the image
/// is the first that may be shown, and the status is the last that speaks
/// of it.
pub open spec fn is_selected(
    images: Seq<Option<String>>,
    statuses: Seq<ContainerStatus>,
    at: int,
    with: int,
) -> bool {
    &&& is_candidate(images, statuses, at)
    &&& forall|j: int| 0 <= j < at ==> !is_candidate(images, statuses, j)
    &&& 0 <= with < statuses.len()
    &&& statuses[with].image@ == images[at]->0@
    &&& forall|m: int| with < m < statuses.len() ==> (#[trigger] statuses[m]).image@ != images[at]->0@
}

/// The image and the status that the report shows, by their positions, if
/// there is an image to show.
pub open spec fn selected(images: Seq<Option<String>>, statuses: Seq<ContainerStatus>) -> Option<
    (int, int),
> {
    if exists|at: int, with: int| is_selected(images, statuses, at, with) {
        Some(choose|at: int, with: int| is_selected(images, statuses, at, with))
    } else {
        None
    }
}

/// The images and statuses that the report reads of `pod`: both are there
/// only if the pod has a name, a specification and a status. A status
/// without container statuses counts as one with none.
pub open spec fn readable(pod: Pod) -> Option<(Seq<Option<String>>, Seq<ContainerStatus>)> {
    match (pod.images, pod.name, pod.container_statuses) {
        (Some(images), Some(_), Some(statuses)) => Some(
            (
                images@,
                match statuses {
                    Some(s) => s@,
                    None => Seq::empty(),
                },
            ),
        ),
        _ => None,
    }
}

/// The report has a row for `pod`: the pod has a name, a specification and
/// a status, and one of its images may be shown.
pub open spec fn has_row(pod: Pod) -> bool {
    readable(pod) matches Some((images, statuses)) && selected(images, statuses) is Some
}

/// The image in the row of `pod`.
pub open spec fn shown_image(pod: Pod) -> Seq<char> {
    let (images, statuses) = readable(pod)->0;
    let (at, with) = selected(images, statuses)->0;
    images[at]->0@
}

/// The row `info` is the row that the report shows for a pod called
/// `name`, given the image and the status that were selected.
pub open spec fn is_row_of(
    info: PodInfo,
    name: Seq<char>,
    image: Seq<char>,
    status: ContainerStatus,
) -> bool {
    &&& info.image@ == image
    &&& info.name@ == name
    &&& (info.status.text@, info.status.colour) == status_of(status)
    &&& (info.restart_count.text@, info.restart_count.colour) == restarts_of(status)
}

/// Only one pair of positions is selected.
pub proof fn lemma_selected_unique(
    images: Seq<Option<String>>,
    statuses: Seq<ContainerStatus>,
    at: int,
    with: int,
)
    requires
        is_selected(images, statuses, at, with),
    ensures
        selected(images, statuses) == Some((at, with)),
{
}

impl<'a> ContainerStatusOps<'a> {
    /// A reader of `container_status`.
    pub fn new(container_status: &'a ContainerStatus) -> (ops: Self)
        ensures
            ops.container_status == container_status,
    {
        Self { container_status }
    }

    /// The number of restarts: see [`restarts_of`].
    pub fn restart_count(&self) -> (cell: Cell)
        ensures
            (cell.text@, cell.colour) == restarts_of(*self.container_status),
    {
        let count = self.container_status.restart_count;
        if count != 0 {
            Cell { text: decimal(count), colour: Colour::Red }
        } else {
            Cell { text: decimal(count), colour: Colour::White }
        }
    }

    /// The state of the container: see [`status_of`].
    pub fn status(&self) -> (cell: Cell)
        ensures
            (cell.text@, cell.colour) == status_of(*self.container_status),
    {
        let status = self.container_status;
        let is_ready = status.ready;
        if let Some(container_state) = &status.state {
            if container_state.running {
                Cell { text: "Running".to_owned(), colour: Colour::Green }
            } else if let Some(terminated) = &container_state.terminated {
                let reason = reason_text(terminated);
                if !is_ready && same_text(reason.as_str(), "Completed") {
                    Cell { text: "NotReady".to_owned(), colour: Colour::Yellow }
                } else {
                    Cell { text: trim(reason.as_str()), colour: Colour::Yellow }
                }
            } else if let Some(waiting) = &container_state.waiting {
                Cell { text: reason_text(waiting), colour: Colour::Red }
            } else {
                Cell { text: "N/A".to_owned(), colour: Colour::White }
            }
        } else {
            Cell { text: "N/A".to_owned(), colour: Colour::White }
        }
    }
}

/// The reason that `detail` gives: see [`reason_of`].
pub fn reason_text(detail: &StateDetail) -> (reason: String)
    ensures
        reason@ == reason_of(*detail),
{
    match &detail.reason {
        Some(reason) => reason.clone(),
        None => "N/A".to_owned(),
    }
}

/// The position of the last of `statuses` that speaks of `image`.
pub fn last_status_of(statuses: &Vec<ContainerStatus>, image: &str) -> (position: Option<usize>)
    ensures
        match position {
            Some(with) => {
                &&& with < statuses.len()
                &&& statuses@[with as int].image@ == image@
                &&& forall|m: int|
                    with < m < statuses.len() ==> (#[trigger] statuses@[m]).image@ != image@
            },
            None => forall|k: int|
                0 <= k < statuses.len() ==> (#[trigger] statuses@[k]).image@ != image@,
        },
{
    let mut k: usize = statuses.len();
    while k > 0
        invariant
            k <= statuses.len(),
            forall|m: int| k <= m < statuses.len() ==> (#[trigger] statuses@[m]).image@ != image@,
        decreases k,
    {
        k -= 1;
        if same_text(statuses[k].image.as_str(), image) {
            return Some(k);
        }
    }
    None
}

/// The image and the status that the report shows: see [`selected`].
pub fn select(images: &Vec<Option<String>>, statuses: &Vec<ContainerStatus>) -> (choice: Option<
    (usize, usize),
>)
    ensures
        match choice {
            Some((at, with)) => {
                &&& selected(images@, statuses@) == Some((at as int, with as int))
                &&& is_selected(images@, statuses@, at as int, with as int)
            },
            None => selected(images@, statuses@) is None,
        },
{
    let mut at: usize = 0;
    while at < images.len()
        invariant
            at <= images.len(),
            forall|j: int| 0 <= j < at ==> !is_candidate(images@, statuses@, j),
        decreases images.len() - at,
    {
        if let Some(image) = &images[at] {
            if !contains(image.as_str(), "istio") {
                if let Some(with) = last_status_of(statuses, image.as_str()) {
                    proof {
                        lemma_selected_unique(images@, statuses@, at as int, with as int);
                    }
                    return Some((at, with));
                }
            }
        }
        at += 1;
    }
    assert forall|i: int, k: int| !is_selected(images@, statuses@, i, k) by {}
    None
}

/// The row that the report shows for `p`, before it is coloured.
///
/// A pod gives a row when it has a name, a specification and a status, and
/// one of its images may be shown. The row holds the first such image, the
/// name of the pod, and state and restarts from the last status that
/// speaks of the image.
pub fn collect_info(p: &Pod) -> (info: Option<PodInfo>)
    ensures
        info is Some <==> has_row(*p),
        info matches Some(row) ==> {
            let (images, statuses) = readable(*p)->0;
            let (at, with) = selected(images, statuses)->0;
            is_row_of(row, p.name->0@, images[at]->0@, statuses[with])
        },
{
    let images = match &p.images {
        Some(images) => images,
        None => {
            return None;
        },
    };
    let name = match &p.name {
        Some(name) => name,
        None => {
            return None;
        },
    };
    let held = match &p.container_statuses {
        Some(held) => held,
        None => {
            return None;
        },
    };
    let none: Vec<ContainerStatus> = Vec::new();
    let statuses = match held {
        Some(statuses) => statuses,
        None => &none,
    };
    match select(images, statuses) {
        Some((at, with)) => {
            let image = match &images[at] {
                Some(image) => image.clone(),
                None => unreached(),
            };
            let ops = ContainerStatusOps::new(&statuses[with]);
            Some(
                PodInfo {
                    image,
                    status: ops.status(),
                    restart_count: ops.restart_count(),
                    name: name.clone(),
                },
            )
        },
        None => None,
    }
}

/// One row as it is printed: the image in 105 columns, the status in 25,
/// the restarts in 18 and, where the pod is wanted, its name in 30, with a
/// space between two columns. A text that is wider than its column is not
/// cut.
pub open spec fn row_line(
    image: Seq<char>,
    status: Seq<char>,
    restart_count: Seq<char>,
    name: Seq<char>,
    with_pod: bool,
) -> Seq<char> {
    let three = padded(image, 105, ' ') + seq![' '] + padded(status, 25, ' ') + seq![' '] + padded(
        restart_count,
        18,
        ' ',
    );
    if with_pod {
        three + seq![' '] + padded(name, 30, ' ')
    } else {
        three
    }
}

/// The lines for the first `upto` of `rows`: one for each row that is
/// there, in their order.
pub open spec fn row_lines(rows: Seq<Option<PrintArguments>>, with_pod: bool, upto: int) -> Seq<
    Seq<char>,
>
    decreases upto,
{
    if upto <= 0 {
        Seq::empty()
    } else {
        let before = row_lines(rows, with_pod, upto - 1);
        match rows[upto - 1] {
            Some(row) => before.push(
                row_line(row.image@, row.status@, row.restart_count@, row.name@, with_pod),
            ),
            None => before,
        }
    }
}

/// The row `row` is `info` with its state and its restarts as a terminal
/// shows them in their colours. Image and name are kept as they are.
pub open spec fn is_painted_row(row: PrintArguments, info: PodInfo) -> bool {
    &&& row.image@ == info.image@
    &&& row.name@ == info.name@
    &&& is_painted(row.status@, info.status.text@, escape_of(info.status.colour))
    &&& is_painted(
        row.restart_count@,
        info.restart_count.text@,
        escape_of(info.restart_count.colour),
    )
}

/// The row `row` heads the report: it names the four columns, state and
/// restarts as a terminal shows them in white.
pub open spec fn is_header(row: PrintArguments) -> bool {
    &&& row.image@ == "IMAGE"@
    &&& row.name@ == "NAME"@
    &&& is_painted(row.status@, "STATUS"@, escape_of(Colour::White))
    &&& is_painted(row.restart_count@, "RESTART"@, escape_of(Colour::White))
}

/// The status that the report shows of `pod`: the last that speaks of the
/// image shown.
pub open spec fn shown_status(pod: Pod) -> ContainerStatus {
    let (images, statuses) = readable(pod)->0;
    let (at, with) = selected(images, statuses)->0;
    statuses[with]
}

/// The row `row` is the row of `pod` as it is printed: the image shown,
/// the name of the pod, and state and restarts of the status shown as a
/// terminal shows them in their colours.
pub open spec fn is_printed_row_of(row: PrintArguments, pod: Pod) -> bool {
    &&& row.image@ == shown_image(pod)
    &&& row.name@ == pod.name->0@
    &&& is_painted(
        row.status@,
        status_of(shown_status(pod)).0,
        escape_of(status_of(shown_status(pod)).1),
    )
    &&& is_painted(
        row.restart_count@,
        restarts_of(shown_status(pod)).0,
        escape_of(restarts_of(shown_status(pod)).1),
    )
}

impl PodInfo {
    /// The row with its state and its restarts in their colours: see
    /// [`is_painted_row`].
    pub fn paint(&self) -> (row: PrintArguments)
        ensures
            is_painted_row(row, *self),
    {
        PrintArguments {
            image: self.image.clone(),
            status: self.status.painted(),
            restart_count: self.restart_count.painted(),
            name: self.name.clone(),
        }
    }
}

impl PrintArguments {
    /// The row that heads the report: see [`is_header`].
    pub fn headers() -> (row: PrintArguments)
        ensures
            is_header(row),
    {
        PrintArguments {
            image: "IMAGE".to_owned(),
            status: paint("STATUS", Colour::White),
            restart_count: paint("RESTART", Colour::White),
            name: "NAME".to_owned(),
        }
    }

    /// The row as it is printed: see [`row_line`].
    pub fn line(&self, with_pod: bool) -> (line: String)
        ensures
            line@ == row_line(
                self.image@,
                self.status@,
                self.restart_count@,
                self.name@,
                with_pod,
            ),
    {
        proof {
            reveal_strlit(" ");
        }
        let mut line = String::new();
        push_padded(&mut line, self.image.as_str(), 105, Fill::Space);
        line.append(" ");
        push_padded(&mut line, self.status.as_str(), 25, Fill::Space);
        line.append(" ");
        push_padded(&mut line, self.restart_count.as_str(), 18, Fill::Space);
        if with_pod {
            line.append(" ");
            push_padded(&mut line, self.name.as_str(), 30, Fill::Space);
        }
        line
    }
}

/// The lines of the report: the execution context, then one line for each
/// row that is there.
pub fn print_result(context: &str, info: &Vec<Option<PrintArguments>>, with_pod: bool) -> (lines:
    Vec<String>)
    ensures
        lines.deep_view() == seq![environment_line(context@)] + row_lines(
            info@,
            with_pod,
            info.len() as int,
        ),
{
    let mut lines: Vec<String> = Vec::new();
    lines.push(environment(context));
    let mut i: usize = 0;
    while i < info.len()
        invariant
            i <= info.len(),
            lines.deep_view() == seq![environment_line(context@)] + row_lines(
                info@,
                with_pod,
                i as int,
            ),
        decreases info.len() - i,
    {
        let ghost before = lines.deep_view();
        if let Some(row) = &info[i] {
            let line = row.line(with_pod);
            let ghost shown = line@;
            lines.push(line);
            assert(before.push(shown) =~= seq![environment_line(context@)] + row_lines(
                info@,
                with_pod,
                i as int,
            ).push(shown));
        }
        i += 1;
    }
    lines
}

/// `rows` are the rows of a report on `pods`: the headers, then for each
/// pod its row as it is printed, or nothing where it gives none.
pub open spec fn is_table_of(rows: Seq<Option<PrintArguments>>, pods: Seq<Pod>) -> bool {
    &&& rows.len() == pods.len() + 1
    &&& rows[0] matches Some(head) && is_header(head)
    &&& forall|i: int| 0 <= i < pods.len() ==> ((#[trigger] rows[i + 1]) is Some <==> has_row(pods[i]))
    &&& forall|i: int|
        0 <= i < pods.len() && has_row(pods[i]) ==> is_printed_row_of(
            (#[trigger] rows[i + 1])->0,
            pods[i],
        )
}

/// The rows of the report on `pods`: see [`is_table_of`].
pub fn collect_rows(pods: &Vec<Pod>) -> (rows: Vec<Option<PrintArguments>>)
    ensures
        is_table_of(rows@, pods@),
{
    let mut rows: Vec<Option<PrintArguments>> = Vec::new();
    rows.push(Some(PrintArguments::headers()));
    let mut i: usize = 0;
    while i < pods.len()
        invariant
            i <= pods.len(),
            rows.len() == i + 1,
            rows@[0] matches Some(head) && is_header(head),
            forall|j: int| 0 <= j < i ==> ((#[trigger] rows@[j + 1]) is Some <==> has_row(pods@[j])),
            forall|j: int|
                0 <= j < i && has_row(pods@[j]) ==> is_printed_row_of(
                    (#[trigger] rows@[j + 1])->0,
                    pods@[j],
                ),
        decreases pods.len() - i,
    {
        let row = match collect_info(&pods[i]) {
            Some(info) => Some(info.paint()),
            None => None,
        };
        rows.push(row);
        i += 1;
    }
    rows
}

/// The lines of the report on `pods`: the execution context, then the
/// lines of a table of the pods, the headers first.
pub fn process(context: &str, pods: &Vec<Pod>, with_pod: bool) -> (lines: Vec<String>)
    ensures
        exists|rows: Seq<Option<PrintArguments>>| #[trigger]
            is_table_of(rows, pods@) && lines.deep_view() == seq![environment_line(context@)]
                + row_lines(rows, with_pod, rows.len() as int),
{
    let rows = collect_rows(pods);
    print_result(context, &rows, with_pod)
}

} // verus!
