//! The report on configuration maps: for each map its name and its
//! entries.

use crate::report::{environment, environment_line};
use crate::text::{padded, push_padded, Fill};
use vstd::prelude::*;
use vstd::string::*;

verus! {

/// One entry of a configuration map.
#[derive(Debug, PartialEq, Eq)]
pub struct ConfigEntry {
    pub key: String,
    pub value: String,
}

/// What the report reads of a configuration map. The entries stand in the
/// order of their keys.
#[derive(Debug, PartialEq, Eq)]
pub struct ConfigMap {
    pub name: Option<String>,
    pub data: Option<Vec<ConfigEntry>>,
}

/// One entry as it is printed: six spaces, the key filled with
/// underscores to 50 columns, a space, and the value filled with spaces to
/// 10 columns.
pub open spec fn entry_line(entry: ConfigEntry) -> Seq<char> {
    seq![' ', ' ', ' ', ' ', ' ', ' '] + padded(entry.key@, 50, '_') + seq![' '] + padded(
        entry.value@,
        10,
        ' ',
    )
}

/// The lines of the first `upto` of `entries`.
pub open spec fn entry_lines(entries: Seq<ConfigEntry>, upto: int) -> Seq<Seq<char>>
    decreases upto,
{
    if upto <= 0 {
        Seq::empty()
    } else {
        entry_lines(entries, upto - 1).push(entry_line(entries[upto - 1]))
    }
}

/// The lines that the report shows for `map`.
///
/// A map without a name gives nothing. A map with a name gives the name
/// followed by a colon and a space, then one line for each entry, or the
/// word `None` after six spaces where the map has no data, then an empty
/// line.
pub open spec fn map_lines(map: ConfigMap) -> Seq<Seq<char>> {
    match map.name {
        Some(name) => seq![name@ + seq![':', ' ']] + (match map.data {
            Some(entries) => entry_lines(entries@, entries@.len() as int),
            None => seq!["      None"@],
        }) + seq![Seq::<char>::empty()],
        None => Seq::empty(),
    }
}

/// The lines of the first `upto` of `maps`, map after map.
pub open spec fn maps_lines(maps: Seq<ConfigMap>, upto: int) -> Seq<Seq<char>>
    decreases upto,
{
    if upto <= 0 {
        Seq::empty()
    } else {
        maps_lines(maps, upto - 1) + map_lines(maps[upto - 1])
    }
}

/// The line of one entry: see [`entry_line`].
pub fn print_entry(entry: &ConfigEntry) -> (line: String)
    ensures
        line@ == entry_line(*entry),
{
    proof {
        reveal_strlit("      ");
        reveal_strlit(" ");
    }
    let mut line = "      ".to_owned();
    push_padded(&mut line, entry.key.as_str(), 50, Fill::Underscore);
    line.append(" ");
    push_padded(&mut line, entry.value.as_str(), 10, Fill::Space);
    line
}

/// The lines that the report shows for `map`: see [`map_lines`].
pub fn print_map(map: &ConfigMap) -> (lines: Vec<String>)
    ensures
        lines.deep_view() == map_lines(*map),
{
    let mut lines: Vec<String> = Vec::new();
    let name = match &map.name {
        Some(name) => name,
        None => {
            return lines;
        },
    };
    proof {
        reveal_strlit(": ");
    }
    assert(": "@ =~= seq![':', ' ']);
    let mut title = name.clone();
    title.append(": ");
    let ghost head = seq![title@];
    lines.push(title);
    match &map.data {
        Some(config) => {
            let mut i: usize = 0;
            while i < config.len()
                invariant
                    i <= config.len(),
                    lines.deep_view() == head + entry_lines(config@, i as int),
                decreases config.len() - i,
            {
                let ghost before = lines.deep_view();
                let line = print_entry(&config[i]);
                let ghost shown = line@;
                lines.push(line);
                assert(before.push(shown) =~= head + entry_lines(config@, i as int).push(shown));
                i += 1;
            }
        },
        None => {
            lines.push("      None".to_owned());
        },
    }
    lines.push(String::new());
    lines
}

/// The lines of the report: the execution context, then the lines of each
/// map, in the order of the maps.
pub fn process(context: &str, maps: &Vec<ConfigMap>) -> (lines: Vec<String>)
    ensures
        lines.deep_view() == seq![environment_line(context@)] + maps_lines(
            maps@,
            maps.len() as int,
        ),
{
    let mut lines: Vec<String> = Vec::new();
    lines.push(environment(context));
    let mut i: usize = 0;
    while i < maps.len()
        invariant
            i <= maps.len(),
            lines.deep_view() == seq![environment_line(context@)] + maps_lines(maps@, i as int),
        decreases maps.len() - i,
    {
        let ghost before = lines.deep_view();
        let mut more = print_map(&maps[i]);
        let ghost added = more.deep_view();
        lines.append(&mut more);
        assert(before + added =~= seq![environment_line(context@)] + (maps_lines(maps@, i as int)
            + added));
        i += 1;
    }
    lines
}

} // verus!
