//! The report on secrets: for each opaque secret its entries, decoded, and
//! on request also in base64.

use crate::paint::{bold_escape_of, is_painted, paint_bold, Colour};
use crate::report::{environment, environment_line};
use crate::text::{padded, push_padded, same_text, str_from_utf8, Fill};
use base64::Engine;
use vstd::prelude::*;
use vstd::string::*;
use vstd::utf8::*;

verus! {

/// One entry of a secret: a key and the bytes kept under it.
#[derive(Debug, PartialEq, Eq)]
pub struct SecretEntry {
    pub key: String,
    pub value: Vec<u8>,
}

/// What the report reads of a secret. The entries stand in the order of
/// their keys.
#[derive(Debug, PartialEq, Eq)]
pub struct Secret {
    pub name: Option<String>,
    pub type_: Option<String>,
    pub data: Option<Vec<SecretEntry>>,
}

/// One entry as it is shown.
pub struct Decoded<'a> {
    pub key: &'a str,
    pub decoded: &'a str,
    pub base64: &'a str,
    pub with_encoded: bool,
}

/// The standard base64 form of `bytes`, with padding.
pub uninterp spec fn base64_of(bytes: Seq<u8>) -> Seq<char>;

/// The base64 form of `len` bytes has a length that the machine can hold.
pub open spec fn encodable(len: nat) -> bool {
    (len / 3) * 4 + 4 <= usize::MAX
}

/// The standard base64 form of `bytes`.
///
/// Rests on `Engine::encode` of the `base64` crate with its `STANDARD`
/// engine: the alphabet of RFC 4648 with padding. The encoder stops the
/// program where the length of the result does not fit the machine's
/// word, so such inputs are left out.
#[verifier::external_body]
fn encode_base64(bytes: &[u8]) -> (encoded: String)
    requires
        encodable(bytes@.len()),
    ensures
        encoded@ == base64_of(bytes@),
{
    base64::engine::general_purpose::STANDARD.encode(bytes)
}

/// The value of an entry as it is shown: the text that its bytes encode,
/// or `Error decoding` where they encode none.
pub open spec fn shown_value(value: Seq<u8>) -> Seq<char> {
    if valid_utf8(value) {
        decode_utf8(value)
    } else {
        "Error decoding"@
    }
}

/// One entry as it is printed: six spaces, the key filled with
/// underscores to 50 columns, a space and the decoded value; where the
/// encoded form is wanted the decoded value is filled with underscores to
/// 70 columns and followed by a space and the base64 form.
pub open spec fn decoded_line(
    key: Seq<char>,
    decoded: Seq<char>,
    base64: Seq<char>,
    with_encoded: bool,
) -> Seq<char> {
    let start = seq![' ', ' ', ' ', ' ', ' ', ' '] + padded(key, 50, '_') + seq![' '];
    if with_encoded {
        start + padded(decoded, 70, '_') + seq![' '] + base64
    } else {
        start + decoded
    }
}

/// The line of `entry`.
pub open spec fn entry_line(entry: SecretEntry, with_encoded: bool) -> Seq<char> {
    decoded_line(entry.key@, shown_value(entry.value@), base64_of(entry.value@), with_encoded)
}

/// The report shows the entries of `s`: it does for a secret that has a
/// name and data.
pub open spec fn is_shown(s: Secret) -> bool {
    s.name is Some && s.data is Some
}

impl<'a> Decoded<'a> {
    /// The entry as it is printed: see [`decoded_line`].
    pub fn line(&self) -> (line: String)
        ensures
            line@ == decoded_line(self.key@, self.decoded@, self.base64@, self.with_encoded),
    {
        proof {
            reveal_strlit("      ");
            reveal_strlit(" ");
        }
        let mut line = "      ".to_owned();
        push_padded(&mut line, self.key, 50, Fill::Underscore);
        line.append(" ");
        if self.with_encoded {
            push_padded(&mut line, self.decoded, 70, Fill::Underscore);
            line.append(" ");
            line.append(self.base64);
        } else {
            line.append(self.decoded);
        }
        line
    }
}

/// Whether the secret is of the opaque type, the only type that the
/// report shows. A secret without a type is not expected here.
pub fn is_opaque(s: &Secret) -> (opaque: bool)
    requires
        s.type_ is Some,
    ensures
        opaque == (s.type_->0@ == "Opaque"@),
{
    match &s.type_ {
        Some(kind) => same_text(kind.as_str(), "Opaque"),
        None => false,
    }
}

/// The line of one entry: see [`entry_line`].
pub fn print_entry(entry: &SecretEntry, with_encoded: bool) -> (line: String)
    requires
        encodable(entry.value@.len()),
    ensures
        line@ == entry_line(*entry, with_encoded),
{
    let value_byte = entry.value.as_slice();
    let base64 = encode_base64(value_byte);
    let decoded = match str_from_utf8(value_byte) {
        Some(text) => text,
        None => "Error decoding",
    };
    let secret = Decoded {
        key: entry.key.as_str(),
        decoded,
        base64: base64.as_str(),
        with_encoded,
    };
    secret.line()
}

/// The lines of the first `upto` of `entries`.
pub open spec fn entry_lines(entries: Seq<SecretEntry>, with_encoded: bool, upto: int) -> Seq<
    Seq<char>,
>
    decreases upto,
{
    if upto <= 0 {
        Seq::empty()
    } else {
        entry_lines(entries, with_encoded, upto - 1).push(
            entry_line(entries[upto - 1], with_encoded),
        )
    }
}

/// The lines that the report shows for `s`, where `title` is the name of
/// the secret as the terminal shows it in bold white.
///
/// A secret with a name and data gives its title, then one line for each
/// entry in their order, then an empty line. Any other secret gives the
/// empty line alone.
pub open spec fn secret_lines(s: Secret, with_encoded: bool, title: Seq<char>) -> Seq<Seq<char>> {
    if is_shown(s) {
        seq![title] + entry_lines(s.data->0@, with_encoded, s.data->0@.len() as int) + seq![
            Seq::<char>::empty(),
        ]
    } else {
        seq![Seq::<char>::empty()]
    }
}

/// Every value of `s` has a base64 form that the machine can hold.
pub open spec fn is_printable(s: Secret) -> bool {
    s.data matches Some(entries) ==> forall|i: int|
        0 <= i < entries@.len() ==> encodable((#[trigger] entries@[i]).value@.len())
}

/// `block` is what the report shows for `s`: the lines of `s` under its
/// name as a terminal shows it in bold white.
pub open spec fn is_secret_block(block: Seq<Seq<char>>, s: Secret, with_encoded: bool) -> bool {
    exists|title: Seq<char>|
        (is_shown(s) ==> is_painted(title, s.name->0@, bold_escape_of(Colour::White)))
            && block == #[trigger] secret_lines(s, with_encoded, title)
}

/// `lines` are what the report shows for the first `upto` of `secrets`:
/// for each opaque secret, in their order, what the report shows for that
/// secret.
pub open spec fn is_report(
    lines: Seq<Seq<char>>,
    secrets: Seq<Secret>,
    with_encoded: bool,
    upto: int,
) -> bool
    decreases upto,
{
    if upto <= 0 {
        lines.len() == 0
    } else if secrets[upto - 1].type_->0@ != "Opaque"@ {
        is_report(lines, secrets, with_encoded, upto - 1)
    } else {
        exists|cut: int|
            0 <= cut <= lines.len() && is_report(
                #[trigger] lines.take(cut),
                secrets,
                with_encoded,
                upto - 1,
            ) && is_secret_block(lines.skip(cut), secrets[upto - 1], with_encoded)
    }
}

/// The lines that the report shows for `s`: see [`is_secret_block`].
pub fn print_secret(s: &Secret, with_encoded: bool) -> (lines: Vec<String>)
    requires
        is_printable(*s),
    ensures
        is_secret_block(lines.deep_view(), *s, with_encoded),
{
    let mut lines: Vec<String> = Vec::new();
    let ghost mut title = Seq::<char>::empty();
    if let (Some(name), Some(data)) = (&s.name, &s.data) {
        let painted = paint_bold(name.as_str(), Colour::White);
        proof {
            title = painted@;
        }
        lines.push(painted);
        let mut i: usize = 0;
        while i < data.len()
            invariant
                i <= data.len(),
                forall|j: int|
                    0 <= j < data@.len() ==> encodable((#[trigger] data@[j]).value@.len()),
                lines.deep_view() == seq![title] + entry_lines(data@, with_encoded, i as int),
            decreases data.len() - i,
        {
            let ghost before = lines.deep_view();
            let line = print_entry(&data[i], with_encoded);
            let ghost shown = line@;
            lines.push(line);
            assert(before.push(shown) =~= seq![title] + entry_lines(
                data@,
                with_encoded,
                i as int,
            ).push(shown));
            i += 1;
        }
    }
    lines.push(String::new());
    assert(lines.deep_view() == secret_lines(*s, with_encoded, title));
    lines
}

/// The lines of the report on `secrets`: the execution context, then for
/// each opaque secret, in their order, what [`print_secret`] gives.
/// Secrets of other types are passed over. A secret without a type is not
/// expected here.
pub fn process(context: &str, secrets: &Vec<Secret>, with_encoded: bool) -> (lines: Vec<String>)
    requires
        forall|i: int|
            0 <= i < secrets.len() ==> (#[trigger] secrets@[i]).type_ is Some && is_printable(
                secrets@[i],
            ),
    ensures
        lines.len() > 0,
        lines@[0]@ == environment_line(context@),
        is_report(lines.deep_view().skip(1), secrets@, with_encoded, secrets.len() as int),
{
    let mut lines: Vec<String> = Vec::new();
    lines.push(environment(context));
    let mut i: usize = 0;
    while i < secrets.len()
        invariant
            i <= secrets.len(),
            forall|j: int|
                0 <= j < secrets.len() ==> (#[trigger] secrets@[j]).type_ is Some && is_printable(
                    secrets@[j],
                ),
            lines.len() > 0,
            lines@[0]@ == environment_line(context@),
            is_report(lines.deep_view().skip(1), secrets@, with_encoded, i as int),
        decreases secrets.len() - i,
    {
        if is_opaque(&secrets[i]) {
            let ghost before = lines.deep_view();
            let mut block = print_secret(&secrets[i], with_encoded);
            let ghost added = block.deep_view();
            lines.append(&mut block);
            proof {
                // what was there before stays; the block of this secret
                // follows it
                let after = lines.deep_view();
                let cut = before.len() - 1;
                assert(after.skip(1).take(cut) =~= before.skip(1));
                assert(after.skip(1).skip(cut) =~= added);
            }
        }
        i += 1;
    }
    lines
}

} // verus!
