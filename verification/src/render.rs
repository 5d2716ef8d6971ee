//! The textual forms of a tree: on one line, indented over several lines, and
//! in the notation of a derived `Debug`.

use crate::error::DissectError;
use crate::text::{
    binary, binary_string, contents, decimal, decimal_string, hex_octet, hex_octet_string, join,
    joined, quoted, quoted_string, signed_decimal, signed_decimal_string, spaces, spaces_string,
};
use crate::value::{bit_is_set, bit_set, flag_names, trees, NamedValues, Tree, Val};
use vstd::prelude::*;
use vstd::string::*;

verus! {

/// The parts one after the other.
pub open spec fn concatenated(parts: Seq<Seq<char>>) -> Seq<char>
    decreases parts.len(),
{
    if parts.len() == 0 {
        Seq::empty()
    } else {
        concatenated(parts.drop_last()) + parts.last()
    }
}

/// The names of the bits that are set in `flags` and have a name, from the
/// bit of least weight up.
pub open spec fn set_names(flags: u8, names: Seq<Option<Seq<char>>>) -> Seq<Seq<char>>
    decreases names.len(),
{
    if names.len() == 0 {
        Seq::empty()
    } else {
        let lower = set_names(flags, names.drop_last());
        match names.last() {
            Some(name) => if bit_set(flags, (names.len() - 1) as nat) {
                lower.push(name)
            } else {
                lower
            },
            None => lower,
        }
    }
}

/// Every byte as a space and two hexadecimal digits.
pub open spec fn hex_dump(bytes: Seq<u8>) -> Seq<char>
    decreases bytes.len(),
{
    if bytes.len() == 0 {
        Seq::empty()
    } else {
        hex_dump(bytes.drop_last()) + " "@ + hex_octet(bytes.last())
    }
}

/// The number of bytes, then the first sixteen of them in hexadecimal, and
/// an ellipsis if there are more.
pub open spec fn bytes_text(bytes: Seq<u8>) -> Seq<char> {
    decimal(bytes.len()) + " B ["@ + if bytes.len() > 16 {
        hex_dump(bytes.take(16)) + " ..."@
    } else {
        hex_dump(bytes)
    } + " ]"@
}

/// The bytes as a list of decimal numbers between square brackets.
pub open spec fn bytes_debug_text(bytes: Seq<u8>) -> Seq<char> {
    "["@ + joined(Seq::new(bytes.len(), |i: int| decimal(bytes[i] as nat)), ", "@) + "]"@
}

/// The names of a flag byte as a list of options.
pub open spec fn names_debug_text(names: Seq<Option<Seq<char>>>) -> Seq<char> {
    "["@ + joined(
        Seq::new(
            names.len(),
            |i: int|
                match names[i] {
                    Some(name) => "Some("@ + quoted(name) + ")"@,
                    None => "None"@,
                },
        ),
        ", "@,
    ) + "]"@
}

/// Every child on one line as its name, a colon and its text.
pub open spec fn entries_text(children: Seq<(Seq<char>, Tree)>) -> Seq<Seq<char>>
    decreases children,
{
    Seq::new(
        children.len(),
        |i: int|
            if 0 <= i < children.len() {
                children[i].0 + ": "@ + children[i].1.text()
            } else {
                arbitrary()
            },
    )
}

/// Every child as a line of its own: the indentation, its name, a colon, what
/// it holds one level deeper, and a line break.
pub open spec fn entries_lines(children: Seq<(Seq<char>, Tree)>, indent: nat) -> Seq<Seq<char>>
    decreases children,
{
    Seq::new(
        children.len(),
        |i: int|
            if 0 <= i < children.len() {
                spaces(2 * indent) + children[i].0 + ": "@ + children[i].1.pretty(indent + 1)
                    + "\n"@
            } else {
                arbitrary()
            },
    )
}

/// Every child as a pair of its quoted name and its debug text.
pub open spec fn entries_debug_text(children: Seq<(Seq<char>, Tree)>) -> Seq<Seq<char>>
    decreases children,
{
    Seq::new(
        children.len(),
        |i: int|
            if 0 <= i < children.len() {
                "("@ + quoted(children[i].0) + ", "@ + children[i].1.debug_text() + ")"@
            } else {
                arbitrary()
            },
    )
}

impl Tree {
    /// The tree on one line. Scalars are written as literals, an address in
    /// its encoded form, an object as the list of its children, a payload as
    /// what it embeds.
    pub open spec fn text(self) -> Seq<char>
        decreases self,
    {
        match self {
            Tree::Signed(i) => signed_decimal(i as int),
            Tree::Unsigned(u) => decimal(u as nat),
            Tree::String(s) => "\""@ + s + "\""@,
            Tree::Symbol(s) => s,
            Tree::Address { encoded, .. } => encoded,
            Tree::BitFlags8(flags, names) => binary(flags as nat, 8) + " ("@ + joined(
                set_names(flags, names),
                "+"@,
            ) + ")"@,
            Tree::Object(children) => "{ "@ + joined(entries_text(children), ", "@) + " }"@,
            Tree::Payload(Ok(inner)) => "("@ + inner.text() + ")"@,
            Tree::Payload(Err(fault)) => "<<"@ + fault.text() + ">>"@,
            Tree::Bytes(bytes) => bytes_text(bytes),
        }
    }

    /// The tree over several lines: every child of an object on a line of its
    /// own, two spaces deeper with every level. A failed payload stays on the
    /// line of its name.
    pub open spec fn pretty(self, indent: nat) -> Seq<char>
        decreases self,
    {
        match self {
            Tree::Object(children) => "\n"@ + concatenated(entries_lines(children, indent)),
            Tree::Payload(Ok(inner)) => "-> "@ + inner.pretty(indent + 1),
            Tree::Payload(Err(fault)) => "<< Error: "@ + fault.text() + " >>"@,
            _ => self.text(),
        }
    }

    /// The tree in the notation of a derived `Debug`.
    pub open spec fn debug_text(self) -> Seq<char>
        decreases self,
    {
        match self {
            Tree::Signed(i) => "Signed("@ + signed_decimal(i as int) + ")"@,
            Tree::Unsigned(u) => "Unsigned("@ + decimal(u as nat) + ")"@,
            Tree::String(s) => "String("@ + quoted(s) + ")"@,
            Tree::Symbol(s) => "Symbol("@ + quoted(s) + ")"@,
            Tree::Address { bytes, encoded } => "Address { bytes: "@ + bytes_debug_text(bytes)
                + ", encoded: "@ + quoted(encoded) + " }"@,
            Tree::BitFlags8(flags, names) => "BitFlags8("@ + decimal(flags as nat) + ", "@
                + names_debug_text(names) + ")"@,
            Tree::Object(children) => "Object(["@ + joined(entries_debug_text(children), ", "@)
                + "])"@,
            Tree::Payload(Ok(inner)) => "Payload(Ok("@ + inner.debug_text() + "))"@,
            Tree::Payload(Err(fault)) => "Payload(Err("@ + fault.debug_text() + "))"@,
            Tree::Bytes(bytes) => "Bytes("@ + bytes_debug_text(bytes) + ")"@,
        }
    }
}

/// The names of the set bits of `flags` that have one.
fn set_name_strings(flags: u8, names: &[Option<&'static str>; 8]) -> (parts: Vec<String>)
    ensures
        contents(parts@) == set_names(flags, flag_names(*names)),
{
    let ghost all = flag_names(*names);
    let mut parts: Vec<String> = Vec::new();
    let mut bit: u8 = 0;
    proof {
        assert(all.take(0) =~= Seq::empty());
        assert(contents(parts@) =~= set_names(flags, all.take(0)));
    }
    while bit < 8
        invariant
            bit <= 8,
            all == flag_names(*names),
            contents(parts@) == set_names(flags, all.take(bit as int)),
        decreases 8 - bit,
    {
        proof {
            assert(all.take(bit + 1).drop_last() =~= all.take(bit as int));
            assert(all.take(bit + 1).last() == all[bit as int]);
        }
        match names[bit as usize] {
            Some(name) => {
                if bit_is_set(flags, bit) {
                    let part = String::from_str(name);
                    proof {
                        assert(contents(parts@.push(part)) =~= contents(parts@).push(name@));
                    }
                    parts.push(part);
                }
            },
            None => {},
        }
        bit += 1;
    }
    proof {
        assert(all.take(8) =~= all);
    }
    parts
}

/// The bytes, each as a space and two hexadecimal digits.
fn hex_dump_string(bytes: &[u8]) -> (out: String)
    ensures
        out@ == hex_dump(bytes@),
{
    let mut out = String::new();
    let mut at: usize = 0;
    proof {
        assert(bytes@.take(0) =~= Seq::empty());
    }
    while at < bytes.len()
        invariant
            at <= bytes@.len(),
            out@ == hex_dump(bytes@.take(at as int)),
        decreases bytes@.len() - at,
    {
        proof {
            assert(bytes@.take(at + 1).drop_last() =~= bytes@.take(at as int));
        }
        out.append(" ");
        out.append(hex_octet_string(bytes[at]).as_str());
        at += 1;
    }
    proof {
        assert(bytes@.take(at as int) =~= bytes@);
    }
    out
}

/// The size of the bytes and the first sixteen of them.
fn bytes_string(bytes: &[u8]) -> (out: String)
    ensures
        out@ == bytes_text(bytes@),
{
    let mut out = decimal_string(bytes.len() as u64);
    out.append(" B [");
    if bytes.len() > 16 {
        let shown = &bytes[0..16];
        proof {
            assert(shown@ =~= bytes@.take(16));
        }
        out.append(hex_dump_string(shown).as_str());
        out.append(" ...");
    } else {
        out.append(hex_dump_string(bytes).as_str());
    }
    out.append(" ]");
    out
}

/// The bytes as a list of decimal numbers.
fn bytes_debug_string(bytes: &[u8]) -> (out: String)
    ensures
        out@ == bytes_debug_text(bytes@),
{
    let ghost all = Seq::new(bytes@.len(), |i: int| decimal(bytes@[i] as nat));
    let mut parts: Vec<String> = Vec::new();
    let mut at: usize = 0;
    proof {
        assert(contents(parts@) =~= all.take(0));
    }
    while at < bytes.len()
        invariant
            at <= bytes@.len(),
            all == Seq::new(bytes@.len(), |i: int| decimal(bytes@[i] as nat)),
            contents(parts@) == all.take(at as int),
        decreases bytes@.len() - at,
    {
        let part = decimal_string(bytes[at] as u64);
        proof {
            assert(contents(parts@.push(part)) =~= contents(parts@).push(part@));
            assert(all.take(at + 1) =~= all.take(at as int).push(all[at as int]));
        }
        parts.push(part);
        at += 1;
    }
    proof {
        assert(all.take(at as int) =~= all);
    }
    let mut out = String::from_str("[");
    out.append(join(&parts, ", ").as_str());
    out.append("]");
    out
}

/// The names of a flag byte as a list of options.
fn names_debug_string(names: &[Option<&'static str>; 8]) -> (out: String)
    ensures
        out@ == names_debug_text(flag_names(*names)),
{
    let ghost shown = flag_names(*names);
    let ghost all = Seq::new(
        shown.len(),
        |i: int|
            match shown[i] {
                Some(name) => "Some("@ + quoted(name) + ")"@,
                None => "None"@,
            },
    );
    let mut parts: Vec<String> = Vec::new();
    let mut at: usize = 0;
    proof {
        assert(contents(parts@) =~= all.take(0));
    }
    while at < 8
        invariant
            at <= 8,
            shown == flag_names(*names),
            all == Seq::new(
                shown.len(),
                |i: int|
                    match shown[i] {
                        Some(name) => "Some("@ + quoted(name) + ")"@,
                        None => "None"@,
                    },
            ),
            contents(parts@) == all.take(at as int),
        decreases 8 - at,
    {
        let part = match names[at] {
            Some(name) => {
                let mut part = String::from_str("Some(");
                part.append(quoted_string(name).as_str());
                part.append(")");
                part
            },
            None => String::from_str("None"),
        };
        proof {
            assert(contents(parts@.push(part)) =~= contents(parts@).push(part@));
            assert(all.take(at + 1) =~= all.take(at as int).push(all[at as int]));
        }
        parts.push(part);
        at += 1;
    }
    proof {
        assert(all.take(at as int) =~= all);
    }
    let mut out = String::from_str("[");
    out.append(join(&parts, ", ").as_str());
    out.append("]");
    out
}

/// The text of every child behind its name.
fn entry_strings<'data>(values: &NamedValues<'data>) -> (parts: Vec<String>)
    ensures
        contents(parts@) == entries_text(trees(values@)),
    decreases values,
{
    let ghost all = entries_text(trees(values@));
    let mut parts: Vec<String> = Vec::new();
    let mut at: usize = 0;
    proof {
        assert(contents(parts@) =~= all.take(0));
    }
    while at < values.len()
        invariant
            at <= values@.len(),
            all == entries_text(trees(values@)),
            contents(parts@) == all.take(at as int),
        decreases values@.len() - at,
    {
        let mut part = String::from_str(values[at].0);
        part.append(": ");
        part.append(values[at].1.to_string().as_str());
        proof {
            assert(contents(parts@.push(part)) =~= contents(parts@).push(part@));
            assert(all.take(at + 1) =~= all.take(at as int).push(all[at as int]));
        }
        parts.push(part);
        at += 1;
    }
    proof {
        assert(all.take(at as int) =~= all);
    }
    parts
}

/// The debug text of every child behind its quoted name.
fn entry_debug_strings<'data>(values: &NamedValues<'data>) -> (parts: Vec<String>)
    ensures
        contents(parts@) == entries_debug_text(trees(values@)),
    decreases values,
{
    let ghost all = entries_debug_text(trees(values@));
    let mut parts: Vec<String> = Vec::new();
    let mut at: usize = 0;
    proof {
        assert(contents(parts@) =~= all.take(0));
    }
    while at < values.len()
        invariant
            at <= values@.len(),
            all == entries_debug_text(trees(values@)),
            contents(parts@) == all.take(at as int),
        decreases values@.len() - at,
    {
        let mut part = String::from_str("(");
        part.append(quoted_string(values[at].0).as_str());
        part.append(", ");
        part.append(values[at].1.debug_string().as_str());
        part.append(")");
        proof {
            assert(contents(parts@.push(part)) =~= contents(parts@).push(part@));
            assert(all.take(at + 1) =~= all.take(at as int).push(all[at as int]));
        }
        parts.push(part);
        at += 1;
    }
    proof {
        assert(all.take(at as int) =~= all);
    }
    parts
}

/// The lines of the children, one after the other, where `prefix` is the
/// indentation of this level.
fn entry_lines_string<'data>(
    values: &NamedValues<'data>,
    prefix: &str,
    Ghost(indent): Ghost<nat>,
) -> (out: String)
    requires
        prefix@ == spaces(2 * indent),
    ensures
        out@ == concatenated(entries_lines(trees(values@), indent)),
    decreases values,
{
    let ghost all = entries_lines(trees(values@), indent);
    let mut deeper = String::from_str(prefix);
    deeper.append("  ");
    proof {
        reveal_strlit("  ");
        assert(deeper@ =~= spaces(2 * (indent + 1)));
        assert(all.take(0) =~= Seq::empty());
    }
    let mut out = String::new();
    let mut at: usize = 0;
    while at < values.len()
        invariant
            at <= values@.len(),
            all == entries_lines(trees(values@), indent),
            prefix@ == spaces(2 * indent),
            deeper@ == spaces(2 * (indent + 1)),
            out@ == concatenated(all.take(at as int)),
        decreases values@.len() - at,
    {
        proof {
            assert(all.take(at + 1).drop_last() =~= all.take(at as int));
        }
        out.append(prefix);
        out.append(values[at].0);
        out.append(": ");
        out.append(values[at].1.pretty_indented(deeper.as_str(), Ghost(indent + 1)).as_str());
        out.append("\n");
        at += 1;
    }
    proof {
        assert(all.take(at as int) =~= all);
    }
    out
}

impl<'data> Val<'data> {
    /// The value on one line.
    pub fn to_string(&self) -> (out: String)
        ensures
            out@ == self@.text(),
        decreases self,
    {
        match self {
            Val::Signed(i) => signed_decimal_string(*i),
            Val::Unsigned(u) => decimal_string(*u),
            Val::String(s) => {
                let mut out = String::from_str("\"");
                out.append(s.as_str());
                out.append("\"");
                out
            },
            Val::Symbol(s) => String::from_str(s),
            Val::Address { encoded, .. } => encoded.clone(),
            Val::BitFlags8(flags, names) => {
                let mut out = binary_string(*flags, 8);
                out.append(" (");
                out.append(join(&set_name_strings(*flags, names), "+").as_str());
                out.append(")");
                out
            },
            Val::Object(values) => {
                let mut out = String::from_str("{ ");
                out.append(join(&entry_strings(values), ", ").as_str());
                out.append(" }");
                out
            },
            Val::Payload(Ok(val)) => {
                let mut out = String::from_str("(");
                out.append(val.to_string().as_str());
                out.append(")");
                out
            },
            Val::Payload(Err(error)) => {
                let mut out = String::from_str("<<");
                out.append(error.to_string().as_str());
                out.append(">>");
                out
            },
            Val::Bytes(bytes) => bytes_string(bytes),
        }
    }

    /// The value over several lines, every child of an object on a line of its
    /// own, indented by two spaces for every level below `indent`.
    pub fn pretty_print(&self, indent: usize) -> (out: String)
        ensures
            out@ == self@.pretty(indent as nat),
    {
        let mut prefix = spaces_string(indent);
        prefix.append(spaces_string(indent).as_str());
        proof {
            assert(prefix@ =~= spaces(2 * (indent as nat)));
        }
        self.pretty_indented(prefix.as_str(), Ghost(indent as nat))
    }

    /// The value over several lines, where `prefix` is the indentation of the
    /// level `indent`.
    fn pretty_indented(&self, prefix: &str, Ghost(indent): Ghost<nat>) -> (out: String)
        requires
            prefix@ == spaces(2 * indent),
        ensures
            out@ == self@.pretty(indent),
        decreases self,
    {
        match self {
            Val::Object(values) => {
                let mut out = String::from_str("\n");
                out.append(entry_lines_string(values, prefix, Ghost(indent)).as_str());
                out
            },
            Val::Payload(Ok(val)) => {
                let mut deeper = String::from_str(prefix);
                deeper.append("  ");
                proof {
                    reveal_strlit("  ");
                    assert(deeper@ =~= spaces(2 * (indent + 1)));
                }
                let mut out = String::from_str("-> ");
                out.append(val.pretty_indented(deeper.as_str(), Ghost(indent + 1)).as_str());
                out
            },
            Val::Payload(Err(error)) => {
                let mut out = String::from_str("<< Error: ");
                out.append(error.to_string().as_str());
                out.append(" >>");
                out
            },
            _ => self.to_string(),
        }
    }

    /// The value in the notation of a derived `Debug`.
    pub fn debug_string(&self) -> (out: String)
        ensures
            out@ == self@.debug_text(),
        decreases self,
    {
        match self {
            Val::Signed(i) => {
                let mut out = String::from_str("Signed(");
                out.append(signed_decimal_string(*i).as_str());
                out.append(")");
                out
            },
            Val::Unsigned(u) => {
                let mut out = String::from_str("Unsigned(");
                out.append(decimal_string(*u).as_str());
                out.append(")");
                out
            },
            Val::String(s) => {
                let mut out = String::from_str("String(");
                out.append(quoted_string(s.as_str()).as_str());
                out.append(")");
                out
            },
            Val::Symbol(s) => {
                let mut out = String::from_str("Symbol(");
                out.append(quoted_string(s).as_str());
                out.append(")");
                out
            },
            Val::Address { bytes, encoded } => {
                let mut out = String::from_str("Address { bytes: ");
                out.append(bytes_debug_string(bytes).as_str());
                out.append(", encoded: ");
                out.append(quoted_string(encoded.as_str()).as_str());
                out.append(" }");
                out
            },
            Val::BitFlags8(flags, names) => {
                let mut out = String::from_str("BitFlags8(");
                out.append(decimal_string(*flags as u64).as_str());
                out.append(", ");
                out.append(names_debug_string(names).as_str());
                out.append(")");
                out
            },
            Val::Object(values) => {
                let mut out = String::from_str("Object([");
                out.append(join(&entry_debug_strings(values), ", ").as_str());
                out.append("])");
                out
            },
            Val::Payload(Ok(val)) => {
                let mut out = String::from_str("Payload(Ok(");
                out.append(val.debug_string().as_str());
                out.append("))");
                out
            },
            Val::Payload(Err(error)) => {
                let mut out = String::from_str("Payload(Err(");
                out.append(error.debug_string().as_str());
                out.append("))");
                out
            },
            Val::Bytes(bytes) => {
                let mut out = String::from_str("Bytes(");
                out.append(bytes_debug_string(bytes).as_str());
                out.append(")");
                out
            },
        }
    }
}

} // verus!
