//! The IPC wire codec: one command per connection, written as compact JSON
//! with the variant and field names of the command model. `enc_cmd` pins the
//! bytes the encoder produces; the decoder accepts exactly that canonical
//! form and is proved to invert the encoder (`lemma_cmd_round_trip`).

use vstd::prelude::*;
use vstd::utf8::{decode_utf8, encode_utf8, valid_utf8};

use crate::commands::{
    CardinalDirection, Command, CommandView, CycleDirection, WindowSelector, WorkspaceSelector,
    WorkspaceSelectorView,
};
use crate::numfmt::{dec_bytes, push_dec_bytes, string_from_utf8};

verus! {

/// The bytes of an ASCII keyword or punctuation literal.
pub open spec fn lit(s: Seq<char>) -> Seq<u8> {
    encode_utf8(s)
}

/// The hex digit byte for `d` (`d < 16`), lowercase.
pub open spec fn hex_digit(d: nat) -> u8 {
    if d < 10 {
        (48 + d) as u8
    } else {
        (87 + d) as u8
    }
}

/// How one byte of string content appears on the wire: quote and backslash
/// escaped, the five short control escapes, other control bytes as
/// `\u00XX`, everything else as itself.
pub open spec fn escape_byte(x: u8) -> Seq<u8> {
    if x == 34 {
        seq![92u8, 34u8]
    } else if x == 92 {
        seq![92u8, 92u8]
    } else if x == 8 {
        seq![92u8, 98u8]
    } else if x == 9 {
        seq![92u8, 116u8]
    } else if x == 10 {
        seq![92u8, 110u8]
    } else if x == 12 {
        seq![92u8, 102u8]
    } else if x == 13 {
        seq![92u8, 114u8]
    } else if x < 32 {
        seq![92u8, 117u8, 48u8, 48u8, hex_digit((x / 16) as nat), hex_digit((x % 16) as nat)]
    } else {
        seq![x]
    }
}

/// A byte string, escaped byte for byte.
pub open spec fn json_escape(s: Seq<u8>) -> Seq<u8>
    decreases s.len(),
{
    if s.len() == 0 {
        Seq::empty()
    } else {
        escape_byte(s[0]) + json_escape(s.drop_first())
    }
}

/// A JSON string: the characters' UTF-8 bytes, escaped, between quotes.
pub open spec fn enc_string(s: Seq<char>) -> Seq<u8> {
    seq![34u8] + json_escape(encode_utf8(s)) + seq![34u8]
}

pub open spec fn enc_dir(d: CardinalDirection) -> Seq<u8> {
    match d {
        CardinalDirection::East => lit("\"East\""@),
        CardinalDirection::West => lit("\"West\""@),
        CardinalDirection::North => lit("\"North\""@),
        CardinalDirection::South => lit("\"South\""@),
    }
}

pub open spec fn enc_cdir(d: CycleDirection) -> Seq<u8> {
    match d {
        CycleDirection::Next => lit("\"Next\""@),
        CycleDirection::Prev => lit("\"Prev\""@),
    }
}

pub open spec fn enc_sel(s: WindowSelector) -> Seq<u8> {
    match s {
        WindowSelector::Focused => lit("\"Focused\""@),
        WindowSelector::Window(w) => lit("{\"Window\":"@) + dec_bytes(w as nat) + lit("}"@),
        WindowSelector::Closest(d) => lit("{\"Closest\":"@) + enc_dir(d) + lit("}"@),
        WindowSelector::Cycle(d) => lit("{\"Cycle\":"@) + enc_cdir(d) + lit("}"@),
    }
}

pub open spec fn enc_wsel(s: WorkspaceSelectorView) -> Seq<u8> {
    match s {
        WorkspaceSelectorView::Index(i) => lit("{\"Index\":"@) + dec_bytes(i as nat) + lit("}"@),
        WorkspaceSelectorView::Name(n) => lit("{\"Name\":"@) + enc_string(n) + lit("}"@),
    }
}

/// The canonical wire form of a command.
pub open spec fn enc_cmd(v: CommandView) -> Seq<u8> {
    match v {
        CommandView::Quit => lit("\"Quit\""@),
        CommandView::Focus { selector } => lit("{\"Focus\":{\"selector\":"@) + enc_sel(selector)
            + lit("}}"@),
        CommandView::Close { selector } => lit("{\"Close\":{\"selector\":"@) + enc_sel(selector)
            + lit("}}"@),
        CommandView::AddWorkspace { name } => lit("{\"AddWorkspace\":{\"name\":"@) + (match name {
            Some(n) => enc_string(n),
            None => lit("null"@),
        }) + lit("}}"@),
        CommandView::RenameWorkspace { selector, name } => lit(
            "{\"RenameWorkspace\":{\"selector\":"@,
        ) + enc_wsel(selector) + lit(",\"name\":"@) + enc_string(name) + lit("}}"@),
        CommandView::ActivateWorkspace { selector } => lit(
            "{\"ActivateWorkspace\":{\"selector\":"@,
        ) + enc_wsel(selector) + lit("}}"@),
        CommandView::SetBorderWidth { width } => lit("{\"SetBorderWidth\":{\"width\":"@)
            + dec_bytes(width as nat) + lit("}}"@),
        CommandView::SetBorderColor { color } => lit("{\"SetBorderColor\":{\"color\":"@)
            + dec_bytes(color as nat) + lit("}}"@),
        CommandView::SetFocusedBorderColor { color } => lit(
            "{\"SetFocusedBorderColor\":{\"color\":"@,
        ) + dec_bytes(color as nat) + lit("}}"@),
    }
}

/// A literal at position `i`: the position just after it, when the bytes
/// there spell it out.
pub open spec fn p_lit(b: Seq<u8>, i: int, l: Seq<u8>) -> Option<int> {
    if 0 <= i && i + l.len() <= b.len() && b.subrange(i, i + l.len()) == l {
        Some(i + l.len())
    } else {
        None
    }
}

pub open spec fn is_digit(x: u8) -> bool {
    48 <= x <= 57
}

/// The position just past the digit run starting at `i`.
pub open spec fn digits_end(b: Seq<u8>, i: int) -> int
    decreases b.len() - i,
        when 0 <= i <= b.len()
{
    if i < b.len() && is_digit(b[i]) {
        digits_end(b, i + 1)
    } else {
        i
    }
}

/// The value of the digits at positions `i ..< j`.
pub open spec fn digits_val(b: Seq<u8>, i: int, j: int) -> nat
    decreases j - i,
        when i <= j
{
    if j <= i {
        0
    } else {
        digits_val(b, i, j - 1) * 10 + (if is_digit(b[j - 1]) {
            (b[j - 1] - 48) as nat
        } else {
            0
        })
    }
}

/// A canonical decimal number at position `i`: at least one digit, no
/// leading zero, value within `u32`.
pub open spec fn p_u32(b: Seq<u8>, i: int) -> Option<(u32, int)> {
    if 0 <= i <= b.len() {
        let j = digits_end(b, i);
        if j == i {
            None
        } else if b[i] == 48 && j > i + 1 {
            None
        } else if digits_val(b, i, j) > 0xffff_ffff {
            None
        } else {
            Some((digits_val(b, i, j) as u32, j))
        }
    } else {
        None
    }
}

pub open spec fn is_hex(x: u8) -> bool {
    is_digit(x) || 97 <= x <= 102 || 65 <= x <= 70
}

pub open spec fn hex_val(x: u8) -> nat {
    if is_digit(x) {
        (x - 48) as nat
    } else if 97 <= x <= 102 {
        (x - 87) as nat
    } else if 65 <= x <= 70 {
        (x - 55) as nat
    } else {
        0
    }
}

pub open spec fn p_cons(x: u8, r: Option<(Seq<u8>, int)>) -> Option<(Seq<u8>, int)> {
    match r {
        Some((s, j)) => Some((seq![x] + s, j)),
        None => None,
    }
}

/// The content bytes of a string body starting at `i` (just after the
/// opening quote), unescaped, and the position just past the closing quote.
pub open spec fn p_strbytes(b: Seq<u8>, i: int) -> Option<(Seq<u8>, int)>
    decreases b.len() - i,
        when 0 <= i
{
    if i >= b.len() {
        None
    } else if b[i] == 34 {
        Some((Seq::empty(), i + 1))
    } else if b[i] == 92 {
        if i + 1 >= b.len() {
            None
        } else {
            let e = b[i + 1];
            if e == 34 || e == 92 || e == 47 {
                p_cons(e, p_strbytes(b, i + 2))
            } else if e == 98 {
                p_cons(8, p_strbytes(b, i + 2))
            } else if e == 116 {
                p_cons(9, p_strbytes(b, i + 2))
            } else if e == 110 {
                p_cons(10, p_strbytes(b, i + 2))
            } else if e == 102 {
                p_cons(12, p_strbytes(b, i + 2))
            } else if e == 114 {
                p_cons(13, p_strbytes(b, i + 2))
            } else if e == 117 {
                if i + 6 <= b.len() && b[i + 2] == 48 && b[i + 3] == 48 && is_hex(b[i + 4])
                    && is_hex(b[i + 5]) && hex_val(b[i + 4]) * 16 + hex_val(b[i + 5]) < 128 {
                    p_cons(
                        (hex_val(b[i + 4]) * 16 + hex_val(b[i + 5])) as u8,
                        p_strbytes(b, i + 6),
                    )
                } else {
                    None
                }
            } else {
                None
            }
        }
    } else {
        p_cons(b[i], p_strbytes(b, i + 1))
    }
}

/// A JSON string at position `i`: its characters and the position past it.
pub open spec fn p_string(b: Seq<u8>, i: int) -> Option<(Seq<char>, int)> {
    if 0 <= i < b.len() && b[i] == 34 {
        match p_strbytes(b, i + 1) {
            Some((bytes, j)) => if valid_utf8(bytes) {
                Some((decode_utf8(bytes), j))
            } else {
                None
            },
            None => None,
        }
    } else {
        None
    }
}

pub open spec fn p_dir(b: Seq<u8>, i: int) -> Option<(CardinalDirection, int)> {
    match p_lit(b, i, lit("\"East\""@)) {
        Some(j) => Some((CardinalDirection::East, j)),
        None => match p_lit(b, i, lit("\"West\""@)) {
            Some(j) => Some((CardinalDirection::West, j)),
            None => match p_lit(b, i, lit("\"North\""@)) {
                Some(j) => Some((CardinalDirection::North, j)),
                None => match p_lit(b, i, lit("\"South\""@)) {
                    Some(j) => Some((CardinalDirection::South, j)),
                    None => None,
                },
            },
        },
    }
}

pub open spec fn p_cdir(b: Seq<u8>, i: int) -> Option<(CycleDirection, int)> {
    match p_lit(b, i, lit("\"Next\""@)) {
        Some(j) => Some((CycleDirection::Next, j)),
        None => match p_lit(b, i, lit("\"Prev\""@)) {
            Some(j) => Some((CycleDirection::Prev, j)),
            None => None,
        },
    }
}

pub open spec fn p_sel(b: Seq<u8>, i: int) -> Option<(WindowSelector, int)> {
    match p_lit(b, i, lit("\"Focused\""@)) {
        Some(j) => Some((WindowSelector::Focused, j)),
        None => match p_lit(b, i, lit("{\"Window\":"@)) {
            Some(j) => match p_u32(b, j) {
                Some((v, j2)) => match p_lit(b, j2, lit("}"@)) {
                    Some(j3) => Some((WindowSelector::Window(v), j3)),
                    None => None,
                },
                None => None,
            },
            None => match p_lit(b, i, lit("{\"Closest\":"@)) {
                Some(j) => match p_dir(b, j) {
                    Some((d, j2)) => match p_lit(b, j2, lit("}"@)) {
                        Some(j3) => Some((WindowSelector::Closest(d), j3)),
                        None => None,
                    },
                    None => None,
                },
                None => match p_lit(b, i, lit("{\"Cycle\":"@)) {
                    Some(j) => match p_cdir(b, j) {
                        Some((d, j2)) => match p_lit(b, j2, lit("}"@)) {
                            Some(j3) => Some((WindowSelector::Cycle(d), j3)),
                            None => None,
                        },
                        None => None,
                    },
                    None => None,
                },
            },
        },
    }
}

pub open spec fn p_wsel(b: Seq<u8>, i: int) -> Option<(WorkspaceSelectorView, int)> {
    match p_lit(b, i, lit("{\"Index\":"@)) {
        Some(j) => match p_u32(b, j) {
            Some((v, j2)) => match p_lit(b, j2, lit("}"@)) {
                Some(j3) => Some((WorkspaceSelectorView::Index(v as usize), j3)),
                None => None,
            },
            None => None,
        },
        None => match p_lit(b, i, lit("{\"Name\":"@)) {
            Some(j) => match p_string(b, j) {
                Some((n, j2)) => match p_lit(b, j2, lit("}"@)) {
                    Some(j3) => Some((WorkspaceSelectorView::Name(n), j3)),
                    None => None,
                },
                None => None,
            },
            None => None,
        },
    }
}

pub open spec fn p_cmd(b: Seq<u8>, i: int) -> Option<(CommandView, int)> {
    match p_lit(b, i, lit("\"Quit\""@)) {
        Some(j) => Some((CommandView::Quit, j)),
        None => match p_lit(b, i, lit("{\"Focus\":{\"selector\":"@)) {
            Some(j) => match p_sel(b, j) {
                Some((sel, j2)) => match p_lit(b, j2, lit("}}"@)) {
                    Some(j3) => Some((CommandView::Focus { selector: sel }, j3)),
                    None => None,
                },
                None => None,
            },
            None => match p_lit(b, i, lit("{\"Close\":{\"selector\":"@)) {
                Some(j) => match p_sel(b, j) {
                    Some((sel, j2)) => match p_lit(b, j2, lit("}}"@)) {
                        Some(j3) => Some((CommandView::Close { selector: sel }, j3)),
                        None => None,
                    },
                    None => None,
                },
                None => match p_lit(b, i, lit("{\"AddWorkspace\":{\"name\":"@)) {
                    Some(j) => match p_lit(b, j, lit("null"@)) {
                        Some(j2) => match p_lit(b, j2, lit("}}"@)) {
                            Some(j3) => Some(
                                (CommandView::AddWorkspace { name: None }, j3),
                            ),
                            None => None,
                        },
                        None => match p_string(b, j) {
                            Some((n, j2)) => match p_lit(b, j2, lit("}}"@)) {
                                Some(j3) => Some(
                                    (CommandView::AddWorkspace { name: Some(n) }, j3),
                                ),
                                None => None,
                            },
                            None => None,
                        },
                    },
                    None => match p_lit(b, i, lit("{\"RenameWorkspace\":{\"selector\":"@)) {
                        Some(j) => match p_wsel(b, j) {
                            Some((sel, j2)) => match p_lit(b, j2, lit(",\"name\":"@)) {
                                Some(j3) => match p_string(b, j3) {
                                    Some((n, j4)) => match p_lit(b, j4, lit("}}"@)) {
                                        Some(j5) => Some(
                                            (
                                                CommandView::RenameWorkspace {
                                                    selector: sel,
                                                    name: n,
                                                },
                                                j5,
                                            ),
                                        ),
                                        None => None,
                                    },
                                    None => None,
                                },
                                None => None,
                            },
                            None => None,
                        },
                        None => match p_lit(
                            b,
                            i,
                            lit("{\"ActivateWorkspace\":{\"selector\":"@),
                        ) {
                            Some(j) => match p_wsel(b, j) {
                                Some((sel, j2)) => match p_lit(b, j2, lit("}}"@)) {
                                    Some(j3) => Some(
                                        (CommandView::ActivateWorkspace { selector: sel }, j3),
                                    ),
                                    None => None,
                                },
                                None => None,
                            },
                            None => match p_lit(b, i, lit("{\"SetBorderWidth\":{\"width\":"@)) {
                                Some(j) => match p_u32(b, j) {
                                    Some((v, j2)) => match p_lit(b, j2, lit("}}"@)) {
                                        Some(j3) => Some(
                                            (CommandView::SetBorderWidth { width: v }, j3),
                                        ),
                                        None => None,
                                    },
                                    None => None,
                                },
                                None => match p_lit(
                                    b,
                                    i,
                                    lit("{\"SetBorderColor\":{\"color\":"@),
                                ) {
                                    Some(j) => match p_u32(b, j) {
                                        Some((v, j2)) => match p_lit(b, j2, lit("}}"@)) {
                                            Some(j3) => Some(
                                                (CommandView::SetBorderColor { color: v }, j3),
                                            ),
                                            None => None,
                                        },
                                        None => None,
                                    },
                                    None => match p_lit(
                                        b,
                                        i,
                                        lit("{\"SetFocusedBorderColor\":{\"color\":"@),
                                    ) {
                                        Some(j) => match p_u32(b, j) {
                                            Some((v, j2)) => match p_lit(b, j2, lit("}}"@)) {
                                                Some(j3) => Some(
                                                    (
                                                        CommandView::SetFocusedBorderColor {
                                                            color: v,
                                                        },
                                                        j3,
                                                    ),
                                                ),
                                                None => None,
                                            },
                                            None => None,
                                        },
                                        None => None,
                                    },
                                },
                            },
                        },
                    },
                },
            },
        },
    }
}

/// What a whole message decodes to: a command covering every byte, or
/// nothing.
pub open spec fn dec_cmd(b: Seq<u8>) -> Option<CommandView> {
    match p_cmd(b, 0) {
        Some((v, j)) => if j == b.len() {
            Some(v)
        } else {
            None
        },
        None => None,
    }
}

/// Appending one byte to the content appends its escape to the wire form.
proof fn lemma_escape_snoc(s: Seq<u8>, x: u8)
    ensures
        json_escape(s.push(x)) == json_escape(s) + escape_byte(x),
    decreases s.len(),
{
    if s.len() == 0 {
        assert(s.push(x).drop_first() =~= Seq::<u8>::empty());
        assert(s.push(x)[0] == x);
        assert(json_escape(s.push(x)) == escape_byte(x) + json_escape(Seq::<u8>::empty()));
        assert(json_escape(s.push(x)) =~= json_escape(s) + escape_byte(x));
    } else {
        assert(s.push(x).drop_first() =~= s.drop_first().push(x));
        lemma_escape_snoc(s.drop_first(), x);
        assert(json_escape(s.push(x)) == escape_byte(s.push(x)[0]) + json_escape(
            s.push(x).drop_first(),
        ));
        assert(s.push(x)[0] == s[0]);
        assert(json_escape(s.push(x).drop_first()) == json_escape(s.drop_first().push(x)));
        assert(json_escape(s) == escape_byte(s[0]) + json_escape(s.drop_first()));
        assert(json_escape(s.push(x)) =~= json_escape(s) + escape_byte(x));
    }
}

/// Append the UTF-8 bytes of `s`.
fn push_str_bytes(out: &mut Vec<u8>, s: &str)
    ensures
        final(out)@ == old(out)@ + encode_utf8(s@),
{
    let mut v = s.as_bytes_vec();
    out.append(&mut v);
}

/// Append the wire form of one content byte.
fn push_escaped_byte(out: &mut Vec<u8>, x: u8)
    ensures
        final(out)@ == old(out)@ + escape_byte(x),
{
    if x == 34 {
        out.push(92);
        out.push(34);
    } else if x == 92 {
        out.push(92);
        out.push(92);
    } else if x == 8 {
        out.push(92);
        out.push(98);
    } else if x == 9 {
        out.push(92);
        out.push(116);
    } else if x == 10 {
        out.push(92);
        out.push(110);
    } else if x == 12 {
        out.push(92);
        out.push(102);
    } else if x == 13 {
        out.push(92);
        out.push(114);
    } else if x < 32 {
        out.push(92);
        out.push(117);
        out.push(48);
        out.push(48);
        let hi = x / 16;
        let lo = x % 16;
        out.push(if hi < 10 { 48 + hi } else { 87 + hi });
        out.push(if lo < 10 { 48 + lo } else { 87 + lo });
    } else {
        out.push(x);
    }
    proof {
        assert(out@ =~= old(out)@ + escape_byte(x));
    }
}

/// Append a JSON string: quotes around the escaped UTF-8 bytes of `s`.
fn push_json_string(out: &mut Vec<u8>, s: &str)
    ensures
        final(out)@ == old(out)@ + enc_string(s@),
{
    out.push(34);
    let bytes = s.as_bytes_vec();
    let ghost base = out@;
    let mut i: usize = 0;
    while i < bytes.len()
        invariant
            i <= bytes@.len(),
            out@ == base + json_escape(bytes@.take(i as int)),
        decreases bytes@.len() - i,
    {
        let ghost pre = bytes@.take(i as int);
        push_escaped_byte(out, bytes[i]);
        i = i + 1;
        proof {
            assert(bytes@.take(i as int) =~= pre.push(bytes@[i - 1]));
            lemma_escape_snoc(pre, bytes@[i - 1]);
            assert(out@ =~= base + json_escape(bytes@.take(i as int)));
        }
    }
    proof {
        assert(bytes@.take(bytes@.len() as int) =~= bytes@);
    }
    out.push(34);
    proof {
        assert(out@ =~= old(out)@ + enc_string(s@));
    }
}

/// Append the wire form of a window selector.
fn push_sel(out: &mut Vec<u8>, s: &WindowSelector)
    ensures
        final(out)@ == old(out)@ + enc_sel(*s),
{
    match s {
        WindowSelector::Focused => {
            push_str_bytes(out, "\"Focused\"");
        },
        WindowSelector::Window(w) => {
            push_str_bytes(out, "{\"Window\":");
            push_dec_bytes(out, *w as usize);
            push_str_bytes(out, "}");
        },
        WindowSelector::Closest(d) => {
            push_str_bytes(out, "{\"Closest\":");
            match d {
                CardinalDirection::East => push_str_bytes(out, "\"East\""),
                CardinalDirection::West => push_str_bytes(out, "\"West\""),
                CardinalDirection::North => push_str_bytes(out, "\"North\""),
                CardinalDirection::South => push_str_bytes(out, "\"South\""),
            }
            push_str_bytes(out, "}");
        },
        WindowSelector::Cycle(d) => {
            push_str_bytes(out, "{\"Cycle\":");
            match d {
                CycleDirection::Next => push_str_bytes(out, "\"Next\""),
                CycleDirection::Prev => push_str_bytes(out, "\"Prev\""),
            }
            push_str_bytes(out, "}");
        },
    }
    proof {
        assert(out@ =~= old(out)@ + enc_sel(*s));
    }
}

/// Append the wire form of a workspace selector.
fn push_wsel(out: &mut Vec<u8>, s: &WorkspaceSelector)
    ensures
        final(out)@ == old(out)@ + enc_wsel(s@),
{
    match s {
        WorkspaceSelector::Index(i) => {
            push_str_bytes(out, "{\"Index\":");
            push_dec_bytes(out, *i);
            push_str_bytes(out, "}");
        },
        WorkspaceSelector::Name(n) => {
            push_str_bytes(out, "{\"Name\":");
            push_json_string(out, n.as_str());
            push_str_bytes(out, "}");
        },
    }
    proof {
        assert(out@ =~= old(out)@ + enc_wsel(s@));
    }
}

/// Serialize a command into its canonical wire form.
pub fn encode_command(c: &Command) -> (r: Vec<u8>)
    ensures
        r@ == enc_cmd(c@),
{
    let mut out: Vec<u8> = Vec::new();
    match c {
        Command::Quit => {
            push_str_bytes(&mut out, "\"Quit\"");
        },
        Command::Focus { selector } => {
            push_str_bytes(&mut out, "{\"Focus\":{\"selector\":");
            push_sel(&mut out, selector);
            push_str_bytes(&mut out, "}}");
        },
        Command::Close { selector } => {
            push_str_bytes(&mut out, "{\"Close\":{\"selector\":");
            push_sel(&mut out, selector);
            push_str_bytes(&mut out, "}}");
        },
        Command::AddWorkspace { name } => {
            push_str_bytes(&mut out, "{\"AddWorkspace\":{\"name\":");
            match name {
                Some(n) => push_json_string(&mut out, n.as_str()),
                None => push_str_bytes(&mut out, "null"),
            }
            push_str_bytes(&mut out, "}}");
        },
        Command::RenameWorkspace { selector, name } => {
            push_str_bytes(&mut out, "{\"RenameWorkspace\":{\"selector\":");
            push_wsel(&mut out, selector);
            push_str_bytes(&mut out, ",\"name\":");
            push_json_string(&mut out, name.as_str());
            push_str_bytes(&mut out, "}}");
        },
        Command::ActivateWorkspace { selector } => {
            push_str_bytes(&mut out, "{\"ActivateWorkspace\":{\"selector\":");
            push_wsel(&mut out, selector);
            push_str_bytes(&mut out, "}}");
        },
        Command::SetBorderWidth { width } => {
            push_str_bytes(&mut out, "{\"SetBorderWidth\":{\"width\":");
            push_dec_bytes(&mut out, *width as usize);
            push_str_bytes(&mut out, "}}");
        },
        Command::SetBorderColor { color } => {
            push_str_bytes(&mut out, "{\"SetBorderColor\":{\"color\":");
            push_dec_bytes(&mut out, *color as usize);
            push_str_bytes(&mut out, "}}");
        },
        Command::SetFocusedBorderColor { color } => {
            push_str_bytes(&mut out, "{\"SetFocusedBorderColor\":{\"color\":");
            push_dec_bytes(&mut out, *color as usize);
            push_str_bytes(&mut out, "}}");
        },
    }
    proof {
        assert(out@ =~= enc_cmd(c@));
    }
    out
}

/// Every position of a digit run holds a digit, and the run ends at a
/// non-digit or the end of input.
proof fn lemma_digits_end_digits(b: Seq<u8>, i: int)
    requires
        0 <= i <= b.len(),
    ensures
        i <= digits_end(b, i) <= b.len(),
        forall|t: int| i <= t < digits_end(b, i) ==> is_digit(#[trigger] b[t]),
    decreases b.len() - i,
{
    if i < b.len() && is_digit(b[i]) {
        lemma_digits_end_digits(b, i + 1);
    }
}

/// A digit run's value only grows as the run extends.
proof fn lemma_digits_val_mono(b: Seq<u8>, i: int, j: int, j2: int)
    requires
        i <= j <= j2,
    ensures
        digits_val(b, i, j) <= digits_val(b, i, j2),
    decreases j2 - j,
{
    if j < j2 {
        lemma_digits_val_mono(b, i, j, j2 - 1);
        assert(digits_val(b, i, j2 - 1) * 10 >= digits_val(b, i, j2 - 1));
    }
}

/// The bytes at `i ..` start with the given literal, or not.
fn match_lit(b: &Vec<u8>, i: usize, l: &str) -> (r: Option<usize>)
    requires
        i <= b@.len(),
    ensures
        match r {
            Some(j) => p_lit(b@, i as int, encode_utf8(l@)) == Some(j as int) && i <= j
                <= b@.len(),
            None => p_lit(b@, i as int, encode_utf8(l@)) is None,
        },
{
    let lb = l.as_bytes_vec();
    proof {
        assert(lb@ == encode_utf8(l@));
    }
    if lb.len() > b.len() - i {
        return None;
    }
    let mut k: usize = 0;
    while k < lb.len()
        invariant
            k <= lb@.len(),
            i + lb@.len() <= b@.len(),
            b@.len() <= usize::MAX,
            lb@ == encode_utf8(l@),
            forall|t: int| 0 <= t < k ==> b@[i + t] == lb@[t],
        decreases lb@.len() - k,
    {
        if b[i + k] != lb[k] {
            proof {
                assert(b@.subrange(i as int, i + lb@.len()) != lb@) by {
                    assert(b@.subrange(i as int, i + lb@.len())[k as int] != lb@[k as int]);
                }
            }
            return None;
        }
        k = k + 1;
    }
    proof {
        assert(b@.subrange(i as int, i + lb@.len()) =~= lb@);
    }
    Some(i + lb.len())
}

/// A canonical decimal number at `i`, within `u32`.
fn parse_u32(b: &Vec<u8>, i: usize) -> (r: Option<(u32, usize)>)
    requires
        i <= b@.len(),
    ensures
        match r {
            Some((v, j)) => p_u32(b@, i as int) == Some((v, j as int)) && i < j <= b@.len(),
            None => p_u32(b@, i as int) is None,
        },
{
    let mut j: usize = i;
    while j < b.len() && b[j] >= 48 && b[j] <= 57
        invariant
            i <= j <= b@.len(),
            digits_end(b@, i as int) == digits_end(b@, j as int),
        decreases b@.len() - j,
    {
        j = j + 1;
    }
    proof {
        assert(digits_end(b@, j as int) == j as int);
        lemma_digits_end_digits(b@, i as int);
    }
    if j == i {
        return None;
    }
    if b[i] == 48 && j > i + 1 {
        return None;
    }
    let mut v: u64 = 0;
    let mut k: usize = i;
    while k < j
        invariant
            i <= k <= j <= b@.len(),
            digits_end(b@, i as int) == j as int,
            v == digits_val(b@, i as int, k as int),
            v <= 0xffff_ffff,
        decreases j - k,
    {
        proof {
            lemma_digits_end_digits(b@, i as int);
        }
        let d = b[k] - 48;
        v = v * 10 + (d as u64);
        k = k + 1;
        if v > 0xffff_ffff {
            proof {
                lemma_digits_val_mono(b@, i as int, k as int, j as int);
            }
            return None;
        }
    }
    Some((v as u32, j))
}

/// A JSON string at `i`: unescape its body, then decode the bytes.
fn parse_string(b: &Vec<u8>, i: usize) -> (r: Option<(String, usize)>)
    requires
        i <= b@.len(),
    ensures
        match r {
            Some((s, j)) => p_string(b@, i as int) == Some((s@, j as int)) && i < j <= b@.len(),
            None => p_string(b@, i as int) is None,
        },
{
    if i >= b.len() || b[i] != 34 {
        return None;
    }
    let ghost i0 = (i + 1) as int;
    let mut collected: Vec<u8> = Vec::new();
    let mut k: usize = i + 1;
    let mut done = false;
    let mut ok = false;
    while !done
        invariant
            i + 1 <= k <= b@.len(),
            !done ==> p_strbytes(b@, i0) == (match p_strbytes(b@, k as int) {
                Some((s, j)) => Some((collected@ + s, j)),
                None => None::<(Seq<u8>, int)>,
            }),
            done ==> (if ok {
                p_strbytes(b@, i0) == Some((collected@, k as int)) && k <= b@.len()
            } else {
                p_strbytes(b@, i0) is None
            }),
        decreases b@.len() - k + (if done { 0int } else { 1int }),
    {
        if k >= b.len() {
            done = true;
            ok = false;
        } else {
            let x = b[k];
            if x == 34 {
                k = k + 1;
                done = true;
                ok = true;
                proof {
                    assert(collected@ + Seq::<u8>::empty() =~= collected@);
                }
            } else if x == 92 {
                if k + 1 >= b.len() {
                    done = true;
                    ok = false;
                } else {
                    let e = b[k + 1];
                    let ghost pre = collected@;
                    if e == 34 || e == 92 || e == 47 {
                        collected.push(e);
                        k = k + 2;
                    } else if e == 98 {
                        collected.push(8);
                        k = k + 2;
                    } else if e == 116 {
                        collected.push(9);
                        k = k + 2;
                    } else if e == 110 {
                        collected.push(10);
                        k = k + 2;
                    } else if e == 102 {
                        collected.push(12);
                        k = k + 2;
                    } else if e == 114 {
                        collected.push(13);
                        k = k + 2;
                    } else if e == 117 {
                        if b.len() - k >= 6 && b[k + 2] == 48 && b[k + 3] == 48 && hex_ok(
                            b[k + 4],
                        ) && hex_ok(b[k + 5]) {
                            let hv = hex_value(b[k + 4]) * 16 + hex_value(b[k + 5]);
                            if hv < 128 {
                                collected.push(hv);
                                k = k + 6;
                            } else {
                                done = true;
                                ok = false;
                            }
                        } else {
                            done = true;
                            ok = false;
                        }
                    } else {
                        done = true;
                        ok = false;
                    }
                    proof {
                        if !done {
                            assert forall|s2: Seq<u8>| true implies pre + (seq![
                                collected@.last(),
                            ] + s2) =~= collected@ + s2 by {}
                        }
                    }
                }
            } else {
                let ghost pre = collected@;
                collected.push(x);
                k = k + 1;
                proof {
                    assert forall|s2: Seq<u8>| true implies pre + (seq![x] + s2) =~= collected@
                        + s2 by {}
                }
            }
        }
    }
    if !ok {
        return None;
    }
    match string_from_utf8(collected) {
        Some(s) => Some((s, k)),
        None => None,
    }
}

/// Whether a byte is a hexadecimal digit.
fn hex_ok(x: u8) -> (r: bool)
    ensures
        r == is_hex(x),
{
    (48 <= x && x <= 57) || (97 <= x && x <= 102) || (65 <= x && x <= 70)
}

/// The value of a hexadecimal digit byte.
fn hex_value(x: u8) -> (r: u8)
    requires
        is_hex(x),
    ensures
        r as nat == hex_val(x),
        r < 16,
{
    if 48 <= x && x <= 57 {
        x - 48
    } else if 97 <= x && x <= 102 {
        x - 87
    } else {
        x - 55
    }
}

fn parse_dir(b: &Vec<u8>, i: usize) -> (r: Option<(CardinalDirection, usize)>)
    requires
        i <= b@.len(),
    ensures
        match r {
            Some((d, j)) => p_dir(b@, i as int) == Some((d, j as int)) && i <= j <= b@.len(),
            None => p_dir(b@, i as int) is None,
        },
{
    match match_lit(b, i, "\"East\"") {
        Some(j) => {
            return Some((CardinalDirection::East, j));
        },
        None => {},
    }
    match match_lit(b, i, "\"West\"") {
        Some(j) => {
            return Some((CardinalDirection::West, j));
        },
        None => {},
    }
    match match_lit(b, i, "\"North\"") {
        Some(j) => {
            return Some((CardinalDirection::North, j));
        },
        None => {},
    }
    match match_lit(b, i, "\"South\"") {
        Some(j) => {
            return Some((CardinalDirection::South, j));
        },
        None => {},
    }
    None
}

fn parse_cdir(b: &Vec<u8>, i: usize) -> (r: Option<(CycleDirection, usize)>)
    requires
        i <= b@.len(),
    ensures
        match r {
            Some((d, j)) => p_cdir(b@, i as int) == Some((d, j as int)) && i <= j <= b@.len(),
            None => p_cdir(b@, i as int) is None,
        },
{
    match match_lit(b, i, "\"Next\"") {
        Some(j) => {
            return Some((CycleDirection::Next, j));
        },
        None => {},
    }
    match match_lit(b, i, "\"Prev\"") {
        Some(j) => {
            return Some((CycleDirection::Prev, j));
        },
        None => {},
    }
    None
}

fn parse_sel(b: &Vec<u8>, i: usize) -> (r: Option<(WindowSelector, usize)>)
    requires
        i <= b@.len(),
    ensures
        match r {
            Some((s, j)) => p_sel(b@, i as int) == Some((s, j as int)) && i <= j <= b@.len(),
            None => p_sel(b@, i as int) is None,
        },
{
    match match_lit(b, i, "\"Focused\"") {
        Some(j) => {
            return Some((WindowSelector::Focused, j));
        },
        None => {},
    }
    match match_lit(b, i, "{\"Window\":") {
        Some(j) => {
            return match parse_u32(b, j) {
                Some((v, j2)) => match match_lit(b, j2, "}") {
                    Some(j3) => Some((WindowSelector::Window(v), j3)),
                    None => None,
                },
                None => None,
            };
        },
        None => {},
    }
    match match_lit(b, i, "{\"Closest\":") {
        Some(j) => {
            return match parse_dir(b, j) {
                Some((d, j2)) => match match_lit(b, j2, "}") {
                    Some(j3) => Some((WindowSelector::Closest(d), j3)),
                    None => None,
                },
                None => None,
            };
        },
        None => {},
    }
    match match_lit(b, i, "{\"Cycle\":") {
        Some(j) => {
            return match parse_cdir(b, j) {
                Some((d, j2)) => match match_lit(b, j2, "}") {
                    Some(j3) => Some((WindowSelector::Cycle(d), j3)),
                    None => None,
                },
                None => None,
            };
        },
        None => {},
    }
    None
}

fn parse_wsel(b: &Vec<u8>, i: usize) -> (r: Option<(WorkspaceSelector, usize)>)
    requires
        i <= b@.len(),
    ensures
        match r {
            Some((s, j)) => p_wsel(b@, i as int) == Some((s@, j as int)) && i <= j <= b@.len(),
            None => p_wsel(b@, i as int) is None,
        },
{
    match match_lit(b, i, "{\"Index\":") {
        Some(j) => {
            return match parse_u32(b, j) {
                Some((v, j2)) => match match_lit(b, j2, "}") {
                    Some(j3) => Some((WorkspaceSelector::Index(v as usize), j3)),
                    None => None,
                },
                None => None,
            };
        },
        None => {},
    }
    match match_lit(b, i, "{\"Name\":") {
        Some(j) => {
            return match parse_string(b, j) {
                Some((n, j2)) => match match_lit(b, j2, "}") {
                    Some(j3) => Some((WorkspaceSelector::Name(n), j3)),
                    None => None,
                },
                None => None,
            };
        },
        None => {},
    }
    None
}

fn parse_cmd(b: &Vec<u8>, i: usize) -> (r: Option<(Command, usize)>)
    requires
        i <= b@.len(),
    ensures
        match r {
            Some((c, j)) => p_cmd(b@, i as int) == Some((c@, j as int)) && i <= j <= b@.len(),
            None => p_cmd(b@, i as int) is None,
        },
{
    match match_lit(b, i, "\"Quit\"") {
        Some(j) => {
            return Some((Command::Quit, j));
        },
        None => {},
    }
    match match_lit(b, i, "{\"Focus\":{\"selector\":") {
        Some(j) => {
            return match parse_sel(b, j) {
                Some((sel, j2)) => match match_lit(b, j2, "}}") {
                    Some(j3) => Some((Command::Focus { selector: sel }, j3)),
                    None => None,
                },
                None => None,
            };
        },
        None => {},
    }
    match match_lit(b, i, "{\"Close\":{\"selector\":") {
        Some(j) => {
            return match parse_sel(b, j) {
                Some((sel, j2)) => match match_lit(b, j2, "}}") {
                    Some(j3) => Some((Command::Close { selector: sel }, j3)),
                    None => None,
                },
                None => None,
            };
        },
        None => {},
    }
    match match_lit(b, i, "{\"AddWorkspace\":{\"name\":") {
        Some(j) => {
            match match_lit(b, j, "null") {
                Some(j2) => {
                    return match match_lit(b, j2, "}}") {
                        Some(j3) => Some((Command::AddWorkspace { name: None }, j3)),
                        None => None,
                    };
                },
                None => {},
            }
            return match parse_string(b, j) {
                Some((n, j2)) => match match_lit(b, j2, "}}") {
                    Some(j3) => Some((Command::AddWorkspace { name: Some(n) }, j3)),
                    None => None,
                },
                None => None,
            };
        },
        None => {},
    }
    match match_lit(b, i, "{\"RenameWorkspace\":{\"selector\":") {
        Some(j) => {
            return match parse_wsel(b, j) {
                Some((sel, j2)) => match match_lit(b, j2, ",\"name\":") {
                    Some(j3) => match parse_string(b, j3) {
                        Some((n, j4)) => match match_lit(b, j4, "}}") {
                            Some(j5) => Some(
                                (Command::RenameWorkspace { selector: sel, name: n }, j5),
                            ),
                            None => None,
                        },
                        None => None,
                    },
                    None => None,
                },
                None => None,
            };
        },
        None => {},
    }
    match match_lit(b, i, "{\"ActivateWorkspace\":{\"selector\":") {
        Some(j) => {
            return match parse_wsel(b, j) {
                Some((sel, j2)) => match match_lit(b, j2, "}}") {
                    Some(j3) => Some((Command::ActivateWorkspace { selector: sel }, j3)),
                    None => None,
                },
                None => None,
            };
        },
        None => {},
    }
    match match_lit(b, i, "{\"SetBorderWidth\":{\"width\":") {
        Some(j) => {
            return match parse_u32(b, j) {
                Some((v, j2)) => match match_lit(b, j2, "}}") {
                    Some(j3) => Some((Command::SetBorderWidth { width: v }, j3)),
                    None => None,
                },
                None => None,
            };
        },
        None => {},
    }
    match match_lit(b, i, "{\"SetBorderColor\":{\"color\":") {
        Some(j) => {
            return match parse_u32(b, j) {
                Some((v, j2)) => match match_lit(b, j2, "}}") {
                    Some(j3) => Some((Command::SetBorderColor { color: v }, j3)),
                    None => None,
                },
                None => None,
            };
        },
        None => {},
    }
    match match_lit(b, i, "{\"SetFocusedBorderColor\":{\"color\":") {
        Some(j) => {
            return match parse_u32(b, j) {
                Some((v, j2)) => match match_lit(b, j2, "}}") {
                    Some(j3) => Some((Command::SetFocusedBorderColor { color: v }, j3)),
                    None => None,
                },
                None => None,
            };
        },
        None => {},
    }
    None
}

/// A literal fails to parse where some byte differs.
proof fn lemma_plit_mismatch(b: Seq<u8>, i: int, l: Seq<u8>, k: int)
    requires
        0 <= i,
        0 <= k < l.len(),
        i + k < b.len(),
        b[i + k] != l[k],
    ensures
        p_lit(b, i, l) is None,
{
    if i + l.len() <= b.len() && b.subrange(i, i + l.len()) == l {
        assert(b.subrange(i, i + l.len())[k] == b[i + k]);
    }
}

/// A digit run bounded by a non-digit parses back to its position.
proof fn lemma_digits_end_run(b: Seq<u8>, i: int, e: int)
    requires
        0 <= i <= e <= b.len(),
        forall|t: int| i <= t < e ==> is_digit(#[trigger] b[t]),
        e == b.len() || !is_digit(b[e]),
    ensures
        digits_end(b, i) == e,
    decreases e - i,
{
    if i < e {
        lemma_digits_end_run(b, i + 1, e);
    }
}

/// The decimal rendering of `n` evaluates back to `n`.
proof fn lemma_digits_val_run(b: Seq<u8>, i: int, n: nat)
    requires
        0 <= i,
        i + dec_bytes(n).len() <= b.len(),
        b.subrange(i, i + dec_bytes(n).len()) == dec_bytes(n),
    ensures
        digits_val(b, i, i + dec_bytes(n).len()) == n,
    decreases n,
{
    crate::numfmt::lemma_dec_bytes_chars(n);
    let m = dec_bytes(n).len() as int;
    if n < 10 {
        assert(b[i] == dec_bytes(n)[0]);
        assert(digits_val(b, i, i + 1) == digits_val(b, i, i) * 10 + (b[i] - 48));
    } else {
        assert(dec_bytes(n) == dec_bytes(n / 10).push((48 + n % 10) as u8));
        assert(b.subrange(i, i + dec_bytes(n / 10).len()) =~= dec_bytes(n / 10));
        lemma_digits_val_run(b, i, n / 10);
        assert(b[i + m - 1] == dec_bytes(n)[m - 1]);
        assert(dec_bytes(n)[m - 1] == (48 + n % 10) as u8);
        assert(digits_val(b, i, i + m) == digits_val(b, i, i + m - 1) * 10 + (b[i + m - 1]
            - 48));
        vstd::arithmetic::div_mod::lemma_fundamental_div_mod(n as int, 10);
    }
}

/// Only zero renders with a leading zero digit.
proof fn lemma_dec_bytes_leading(n: nat)
    ensures
        dec_bytes(n)[0] == 48 ==> n == 0,
    decreases n,
{
    if n >= 10 {
        assert(dec_bytes(n)[0] == dec_bytes(n / 10)[0]) by {
            crate::numfmt::lemma_dec_bytes_chars(n / 10);
        }
        lemma_dec_bytes_leading(n / 10);
    }
}

/// A rendered number bounded by a non-digit parses back to its value.
proof fn lemma_u32_rt(b: Seq<u8>, i: int, n: nat)
    requires
        0 <= i,
        i + dec_bytes(n).len() < b.len(),
        b.subrange(i, i + dec_bytes(n).len()) == dec_bytes(n),
        !is_digit(b[i + dec_bytes(n).len()]),
        n <= 0xffff_ffff,
    ensures
        p_u32(b, i) == Some((n as u32, i + dec_bytes(n).len())),
{
    crate::numfmt::lemma_dec_bytes_chars(n);
    let m = dec_bytes(n).len() as int;
    assert forall|t: int| i <= t < i + m implies is_digit(#[trigger] b[t]) by {
        assert(b[t] == dec_bytes(n)[t - i]);
    }
    lemma_digits_end_run(b, i, i + m);
    lemma_digits_val_run(b, i, n);
    assert(b[i] == dec_bytes(n)[0]);
    lemma_dec_bytes_leading(n);
    if n == 0 {
        assert(dec_bytes(n).len() == 1);
    }
}

/// A hex digit byte evaluates back to its value.
proof fn lemma_hex_digit_val(d: nat)
    requires
        d < 16,
    ensures
        is_hex(hex_digit(d)),
        hex_val(hex_digit(d)) == d,
{
}

/// An escaped byte string bounded by a closing quote parses back to the
/// original bytes.
proof fn lemma_strbytes_rt(b: Seq<u8>, i: int, s: Seq<u8>)
    requires
        0 <= i,
        i + json_escape(s).len() + 1 <= b.len(),
        b.subrange(i, i + json_escape(s).len()) == json_escape(s),
        b[i + json_escape(s).len()] == 34,
    ensures
        p_strbytes(b, i) == Some((s, i + json_escape(s).len() + 1)),
    decreases s.len(),
{
    if s.len() == 0 {
        assert(json_escape(s).len() == 0);
        assert(b[i] == 34);
    } else {
        let x = s[0];
        let rest = s.drop_first();
        let eb = escape_byte(x);
        assert(json_escape(s) == eb + json_escape(rest));
        let i2 = i + eb.len() as int;
        assert forall|t: int| 0 <= t < eb.len() implies b[i + t] == eb[t] by {
            assert(b.subrange(i, i + json_escape(s).len())[t] == b[i + t]);
        }
        assert(b.subrange(i2, i2 + json_escape(rest).len()) =~= json_escape(rest)) by {
            assert forall|t: int| 0 <= t < json_escape(rest).len() implies b.subrange(
                i2,
                i2 + json_escape(rest).len(),
            )[t] == json_escape(rest)[t] by {
                assert(b.subrange(i, i + json_escape(s).len())[eb.len() + t] == b[i2 + t]);
            }
        }
        lemma_strbytes_rt(b, i2, rest);
        assert(seq![x] + rest =~= s);
        if x == 34 || x == 92 {
            assert(b[i] == 92);
        } else if x == 8 || x == 9 || x == 10 || x == 12 || x == 13 {
            assert(b[i] == 92);
        } else if x < 32 {
            assert(b[i] == 92 && b[i + 1] == 117 && b[i + 2] == 48 && b[i + 3] == 48);
            assert(b[i + 4] == hex_digit((x / 16) as nat));
            assert(b[i + 5] == hex_digit((x % 16) as nat));
            lemma_hex_digit_val((x / 16) as nat);
            lemma_hex_digit_val((x % 16) as nat);
            vstd::arithmetic::div_mod::lemma_fundamental_div_mod(x as int, 16);
            assert(hex_val(b[i + 4]) * 16 + hex_val(b[i + 5]) == x);
        } else {
            assert(eb == seq![x]);
            assert(b[i] == x);
            assert(b[i] != 34 && b[i] != 92);
        }
    }
}

/// An encoded string parses back to its characters.
proof fn lemma_string_rt(b: Seq<u8>, i: int, cs: Seq<char>)
    requires
        0 <= i,
        i + enc_string(cs).len() <= b.len(),
        b.subrange(i, i + enc_string(cs).len()) == enc_string(cs),
    ensures
        p_string(b, i) == Some((cs, i + enc_string(cs).len())),
{
    let body = json_escape(encode_utf8(cs));
    let n = enc_string(cs).len() as int;
    assert forall|t: int| 0 <= t < n implies b[i + t] == enc_string(cs)[t] by {
        assert(b.subrange(i, i + n)[t] == b[i + t]);
    }
    assert(b[i + 0] == enc_string(cs)[0]);
    assert(enc_string(cs)[0] == 34);
    assert(b[i] == 34);
    assert(b.subrange(i + 1, i + 1 + body.len()) =~= body) by {
        assert forall|t: int| 0 <= t < body.len() implies b.subrange(i + 1, i + 1 + body.len())[t]
            == body[t] by {
            assert(b[i + 1 + t] == enc_string(cs)[1 + t]);
        }
    }
    assert(b[i + 1 + body.len()] == enc_string(cs)[n - 1]);
    assert(enc_string(cs)[n - 1] == 34);
    lemma_strbytes_rt(b, i + 1, encode_utf8(cs));
    vstd::utf8::encode_utf8_valid_utf8(cs);
    vstd::utf8::encode_utf8_decode_utf8(cs);
}

/// A piece of a byte string that is itself laid out at an offset.
proof fn lemma_sub_segment(b: Seq<u8>, i: int, full: Seq<u8>, off: int, seg: Seq<u8>)
    requires
        0 <= i,
        i + full.len() <= b.len(),
        b.subrange(i, i + full.len()) == full,
        0 <= off,
        off + seg.len() <= full.len(),
        full.subrange(off, off + seg.len()) == seg,
    ensures
        b.subrange(i + off, i + off + seg.len()) == seg,
{
    assert forall|t: int| 0 <= t < seg.len() implies b.subrange(i + off, i + off + seg.len())[t]
        == seg[t] by {
        assert(b.subrange(i, i + full.len())[off + t] == b[i + off + t]);
        assert(full.subrange(off, off + seg.len())[t] == full[off + t]);
    }
    assert(b.subrange(i + off, i + off + seg.len()) =~= seg);
}

/// The ASCII literals of the wire grammar, byte for byte.
proof fn lemma_grammar_lits()
    ensures
        forall|s: Seq<char>|
            vstd::utf8::is_ascii_chars(s) ==> (#[trigger] lit(s)).len() == s.len(),
        forall|s: Seq<char>, t: int|
            vstd::utf8::is_ascii_chars(s) && 0 <= t < s.len() ==> #[trigger] lit(s)[t] == s[t]
                as u8,
{
    assert forall|s: Seq<char>| vstd::utf8::is_ascii_chars(s) implies (#[trigger] lit(s)).len()
        == s.len() by {
        vstd::utf8::is_ascii_chars_encode_utf8(s);
    }
    assert forall|s: Seq<char>, t: int|
        vstd::utf8::is_ascii_chars(s) && 0 <= t < s.len() implies #[trigger] lit(s)[t] == s[t]
        as u8 by {
        vstd::utf8::is_ascii_chars_encode_utf8(s);
    }
}

/// One byte of an ASCII literal, named by its character.
proof fn lit_byte_is(s: Seq<char>, t: int, c: char)
    requires
        vstd::utf8::is_ascii_chars(s),
        0 <= t < s.len(),
        s[t] == c,
    ensures
        lit(s).len() == s.len(),
        lit(s)[t] == c as u8,
{
    vstd::utf8::is_ascii_chars_encode_utf8(s);
}

/// The length of an ASCII literal's bytes.
proof fn lit_len(s: Seq<char>)
    requires
        vstd::utf8::is_ascii_chars(s),
    ensures
        lit(s).len() == s.len(),
{
    vstd::utf8::is_ascii_chars_encode_utf8(s);
}

/// An encoded cardinal direction parses back.
proof fn lemma_dir_rt(b: Seq<u8>, i: int, d: CardinalDirection)
    requires
        0 <= i,
        i + enc_dir(d).len() <= b.len(),
        b.subrange(i, i + enc_dir(d).len()) == enc_dir(d),
    ensures
        p_dir(b, i) == Some((d, i + enc_dir(d).len())),
{
    reveal_strlit("\"East\"");
    reveal_strlit("\"West\"");
    reveal_strlit("\"North\"");
    reveal_strlit("\"South\"");
    assert(vstd::utf8::is_ascii_chars("\"East\""@));
    assert(vstd::utf8::is_ascii_chars("\"West\""@));
    assert(vstd::utf8::is_ascii_chars("\"North\""@));
    assert(vstd::utf8::is_ascii_chars("\"South\""@));
    let e = enc_dir(d);
    match d {
        CardinalDirection::East => {},
        CardinalDirection::West => {
            lit_byte_is("\"West\""@, 1, 'W');
            lit_byte_is("\"East\""@, 1, 'E');
            assert(b.subrange(i, i + e.len())[1] == b[i + 1]);
            assert(b[i + 1] == 87);
            lemma_plit_mismatch(b, i, lit("\"East\""@), 1);
        },
        CardinalDirection::North => {
            lit_byte_is("\"North\""@, 1, 'N');
            lit_byte_is("\"East\""@, 1, 'E');
            lit_byte_is("\"West\""@, 1, 'W');
            assert(b.subrange(i, i + e.len())[1] == b[i + 1]);
            assert(b[i + 1] == 78);
            lemma_plit_mismatch(b, i, lit("\"East\""@), 1);
            lemma_plit_mismatch(b, i, lit("\"West\""@), 1);
        },
        CardinalDirection::South => {
            lit_byte_is("\"South\""@, 1, 'S');
            lit_byte_is("\"East\""@, 1, 'E');
            lit_byte_is("\"West\""@, 1, 'W');
            lit_byte_is("\"North\""@, 1, 'N');
            assert(b.subrange(i, i + e.len())[1] == b[i + 1]);
            assert(b[i + 1] == 83);
            lemma_plit_mismatch(b, i, lit("\"East\""@), 1);
            lemma_plit_mismatch(b, i, lit("\"West\""@), 1);
            lemma_plit_mismatch(b, i, lit("\"North\""@), 1);
        },
    }
}

/// An encoded cycle direction parses back.
proof fn lemma_cdir_rt(b: Seq<u8>, i: int, d: CycleDirection)
    requires
        0 <= i,
        i + enc_cdir(d).len() <= b.len(),
        b.subrange(i, i + enc_cdir(d).len()) == enc_cdir(d),
    ensures
        p_cdir(b, i) == Some((d, i + enc_cdir(d).len())),
{
    reveal_strlit("\"Next\"");
    reveal_strlit("\"Prev\"");
    assert(vstd::utf8::is_ascii_chars("\"Next\""@));
    assert(vstd::utf8::is_ascii_chars("\"Prev\""@));
    let e = enc_cdir(d);
    match d {
        CycleDirection::Next => {},
        CycleDirection::Prev => {
            lit_byte_is("\"Prev\""@, 1, 'P');
            lit_byte_is("\"Next\""@, 1, 'N');
            assert(b.subrange(i, i + e.len())[1] == b[i + 1]);
            assert(b[i + 1] == 80);
            lemma_plit_mismatch(b, i, lit("\"Next\""@), 1);
        },
    }
}

/// An encoded window selector parses back.
#[verifier::rlimit(60)]
proof fn lemma_sel_rt(b: Seq<u8>, i: int, sel: WindowSelector)
    requires
        0 <= i,
        i + enc_sel(sel).len() <= b.len(),
        b.subrange(i, i + enc_sel(sel).len()) == enc_sel(sel),
    ensures
        p_sel(b, i) == Some((sel, i + enc_sel(sel).len())),
{
    reveal_strlit("\"Focused\"");
    reveal_strlit("{\"Window\":");
    reveal_strlit("{\"Closest\":");
    reveal_strlit("{\"Cycle\":");
    reveal_strlit("}");
    assert(vstd::utf8::is_ascii_chars("\"Focused\""@));
    assert(vstd::utf8::is_ascii_chars("{\"Window\":"@));
    assert(vstd::utf8::is_ascii_chars("{\"Closest\":"@));
    assert(vstd::utf8::is_ascii_chars("{\"Cycle\":"@));
    assert(vstd::utf8::is_ascii_chars("}"@));
    let e = enc_sel(sel);
    match sel {
        WindowSelector::Focused => {},
        WindowSelector::Window(w) => {
            let pre = lit("{\"Window\":"@);
            let num = dec_bytes(w as nat);
            lit_byte_is("{\"Window\":"@, 0, '{');
            lit_byte_is("\"Focused\""@, 0, '"');
            lit_byte_is("}"@, 0, '}');
            assert(b.subrange(i, i + e.len())[0] == b[i + 0]);
            assert(e[0] == 123);
            lemma_plit_mismatch(b, i, lit("\"Focused\""@), 0);
            assert(e.subrange(0, pre.len() as int) =~= pre);
            lemma_sub_segment(b, i, e, 0, pre);
            let j = i + pre.len() as int;
            assert(e.subrange(pre.len() as int, (pre.len() + num.len()) as int) =~= num);
            lemma_sub_segment(b, i, e, pre.len() as int, num);
            let close = (pre.len() + num.len()) as int;
            assert(b.subrange(i, i + e.len())[close] == b[i + close]);
            assert(e[close] == 125);
            lemma_u32_rt(b, j, w as nat);
            assert(e.subrange(close, close + 1) =~= lit("}"@));
            lemma_sub_segment(b, i, e, close, lit("}"@));
        },
        WindowSelector::Closest(d) => {
            let pre = lit("{\"Closest\":"@);
            let dd = enc_dir(d);
            lit_byte_is("{\"Closest\":"@, 0, '{');
            lit_byte_is("{\"Closest\":"@, 2, 'C');
            lit_byte_is("\"Focused\""@, 0, '"');
            lit_byte_is("{\"Window\":"@, 2, 'W');
            lit_byte_is("}"@, 0, '}');
            assert(b.subrange(i, i + e.len())[0] == b[i + 0]);
            assert(b.subrange(i, i + e.len())[2] == b[i + 2]);
            assert(e[0] == 123 && e[2] == 67);
            lemma_plit_mismatch(b, i, lit("\"Focused\""@), 0);
            lemma_plit_mismatch(b, i, lit("{\"Window\":"@), 2);
            assert(e.subrange(0, pre.len() as int) =~= pre);
            lemma_sub_segment(b, i, e, 0, pre);
            let j = i + pre.len() as int;
            assert(e.subrange(pre.len() as int, (pre.len() + dd.len()) as int) =~= dd);
            lemma_sub_segment(b, i, e, pre.len() as int, dd);
            lemma_dir_rt(b, j, d);
            let close = (pre.len() + dd.len()) as int;
            assert(e.subrange(close, close + 1) =~= lit("}"@));
            lemma_sub_segment(b, i, e, close, lit("}"@));
        },
        WindowSelector::Cycle(d) => {
            let pre = lit("{\"Cycle\":"@);
            let dd = enc_cdir(d);
            lit_byte_is("{\"Cycle\":"@, 0, '{');
            lit_byte_is("{\"Cycle\":"@, 2, 'C');
            lit_byte_is("{\"Cycle\":"@, 3, 'y');
            lit_byte_is("\"Focused\""@, 0, '"');
            lit_byte_is("{\"Window\":"@, 2, 'W');
            lit_byte_is("{\"Closest\":"@, 3, 'l');
            lit_byte_is("}"@, 0, '}');
            assert(b.subrange(i, i + e.len())[0] == b[i + 0]);
            assert(b.subrange(i, i + e.len())[2] == b[i + 2]);
            assert(b.subrange(i, i + e.len())[3] == b[i + 3]);
            assert(e[0] == 123 && e[2] == 67 && e[3] == 121);
            lemma_plit_mismatch(b, i, lit("\"Focused\""@), 0);
            lemma_plit_mismatch(b, i, lit("{\"Window\":"@), 2);
            lemma_plit_mismatch(b, i, lit("{\"Closest\":"@), 3);
            assert(e.subrange(0, pre.len() as int) =~= pre);
            lemma_sub_segment(b, i, e, 0, pre);
            let j = i + pre.len() as int;
            assert(e.subrange(pre.len() as int, (pre.len() + dd.len()) as int) =~= dd);
            lemma_sub_segment(b, i, e, pre.len() as int, dd);
            lemma_cdir_rt(b, j, d);
            let close = (pre.len() + dd.len()) as int;
            assert(e.subrange(close, close + 1) =~= lit("}"@));
            lemma_sub_segment(b, i, e, close, lit("}"@));
        },
    }
}

/// An encoded workspace selector parses back, for index values within the
/// range the decoder accepts.
#[verifier::rlimit(60)]
proof fn lemma_wsel_rt(b: Seq<u8>, i: int, sel: WorkspaceSelectorView)
    requires
        0 <= i,
        i + enc_wsel(sel).len() <= b.len(),
        b.subrange(i, i + enc_wsel(sel).len()) == enc_wsel(sel),
        match sel {
            WorkspaceSelectorView::Index(n) => n <= 0xffff_ffff,
            WorkspaceSelectorView::Name(_) => true,
        },
    ensures
        p_wsel(b, i) == Some((sel, i + enc_wsel(sel).len())),
{
    reveal_strlit("{\"Index\":");
    reveal_strlit("{\"Name\":");
    reveal_strlit("}");
    assert(vstd::utf8::is_ascii_chars("{\"Index\":"@));
    assert(vstd::utf8::is_ascii_chars("{\"Name\":"@));
    assert(vstd::utf8::is_ascii_chars("}"@));
    let e = enc_wsel(sel);
    match sel {
        WorkspaceSelectorView::Index(n) => {
            let pre = lit("{\"Index\":"@);
            let num = dec_bytes(n as nat);
            lit_len("{\"Index\":"@);
            lit_byte_is("}"@, 0, '}');
            assert(e.subrange(0, pre.len() as int) =~= pre);
            lemma_sub_segment(b, i, e, 0, pre);
            let j = i + pre.len() as int;
            assert(e.subrange(pre.len() as int, (pre.len() + num.len()) as int) =~= num);
            lemma_sub_segment(b, i, e, pre.len() as int, num);
            let close = (pre.len() + num.len()) as int;
            assert(b.subrange(i, i + e.len())[close] == b[i + close]);
            assert(e[close] == 125);
            lemma_u32_rt(b, j, n as nat);
            assert(e.subrange(close, close + 1) =~= lit("}"@));
            lemma_sub_segment(b, i, e, close, lit("}"@));
            assert((n as nat) as u32 as usize == n);
        },
        WorkspaceSelectorView::Name(cs) => {
            let pre = lit("{\"Name\":"@);
            let body = enc_string(cs);
            lit_len("{\"Name\":"@);
            lit_byte_is("{\"Name\":"@, 2, 'N');
            lit_byte_is("{\"Index\":"@, 2, 'I');
            lit_byte_is("}"@, 0, '}');
            assert(b.subrange(i, i + e.len())[2] == b[i + 2]);
            assert(e[2] == 78);
            lemma_plit_mismatch(b, i, lit("{\"Index\":"@), 2);
            assert(e.subrange(0, pre.len() as int) =~= pre);
            lemma_sub_segment(b, i, e, 0, pre);
            let j = i + pre.len() as int;
            assert(e.subrange(pre.len() as int, (pre.len() + body.len()) as int) =~= body);
            lemma_sub_segment(b, i, e, pre.len() as int, body);
            lemma_string_rt(b, j, cs);
            let close = (pre.len() + body.len()) as int;
            assert(e.subrange(close, close + 1) =~= lit("}"@));
            lemma_sub_segment(b, i, e, close, lit("}"@));
        },
    }
}

/// True when the decoder can reproduce the value: workspace indices within
/// `u32`, which the dispatcher enforces anyway.
pub open spec fn cmd_bounded(v: CommandView) -> bool {
    match v {
        CommandView::RenameWorkspace { selector, .. } => match selector {
            WorkspaceSelectorView::Index(n) => n <= 0xffff_ffff,
            WorkspaceSelectorView::Name(_) => true,
        },
        CommandView::ActivateWorkspace { selector } => match selector {
            WorkspaceSelectorView::Index(n) => n <= 0xffff_ffff,
            WorkspaceSelectorView::Name(_) => true,
        },
        _ => true,
    }
}

#[verifier::rlimit(100)]
proof fn lemma_rt_quit()
    ensures
        dec_cmd(enc_cmd(CommandView::Quit)) == Some(CommandView::Quit),
{
    reveal_strlit("\"Quit\"");
    assert(vstd::utf8::is_ascii_chars("\"Quit\""@));
    lit_byte_is("\"Quit\""@, 0, '"');
    let v = CommandView::Quit;
    let b = enc_cmd(v);
    assert(b.subrange(0, b.len() as int) =~= b);
}

#[verifier::rlimit(100)]
proof fn lemma_rt_focus(selector: WindowSelector)
    ensures
        dec_cmd(enc_cmd(CommandView::Focus { selector })) == Some(CommandView::Focus { selector }),
{
    reveal_strlit("\"Quit\"");
    reveal_strlit("{\"Focus\":{\"selector\":");
    reveal_strlit("}}");
    assert(vstd::utf8::is_ascii_chars("\"Quit\""@));
    assert(vstd::utf8::is_ascii_chars("{\"Focus\":{\"selector\":"@));
    assert(vstd::utf8::is_ascii_chars("}}"@));
    lit_byte_is("\"Quit\""@, 0, '"');
    lit_byte_is("}}"@, 0, '}');
    lit_byte_is("}}"@, 1, '}');
    let v = CommandView::Focus { selector };
    let b = enc_cmd(v);
    let pre = lit("{\"Focus\":{\"selector\":"@);
    let mid = enc_sel(selector);
    lit_byte_is("{\"Focus\":{\"selector\":"@, 0, '{');
    assert(b[0] == 123);
    lemma_plit_mismatch(b, 0, lit("\"Quit\""@), 0);
    assert(b.subrange(0, pre.len() as int) =~= pre);
    assert(b.subrange(pre.len() as int, (pre.len() + mid.len()) as int) =~= mid);
    lemma_sel_rt(b, pre.len() as int, selector);
    assert(b.subrange((pre.len() + mid.len()) as int, b.len() as int) =~= lit("}}"@));
}

#[verifier::rlimit(100)]
proof fn lemma_rt_close(selector: WindowSelector)
    ensures
        dec_cmd(enc_cmd(CommandView::Close { selector })) == Some(CommandView::Close { selector }),
{
    reveal_strlit("\"Quit\"");
    reveal_strlit("{\"Focus\":{\"selector\":");
    reveal_strlit("{\"Close\":{\"selector\":");
    reveal_strlit("}}");
    assert(vstd::utf8::is_ascii_chars("\"Quit\""@));
    assert(vstd::utf8::is_ascii_chars("{\"Focus\":{\"selector\":"@));
    assert(vstd::utf8::is_ascii_chars("{\"Close\":{\"selector\":"@));
    assert(vstd::utf8::is_ascii_chars("}}"@));
    lit_byte_is("\"Quit\""@, 0, '"');
    lit_byte_is("}}"@, 0, '}');
    lit_byte_is("}}"@, 1, '}');
    let v = CommandView::Close { selector };
    let b = enc_cmd(v);
    let pre = lit("{\"Close\":{\"selector\":"@);
    let mid = enc_sel(selector);
    lit_byte_is("{\"Close\":{\"selector\":"@, 0, '{');
    lit_byte_is("{\"Close\":{\"selector\":"@, 2, 'C');
    lit_byte_is("{\"Focus\":{\"selector\":"@, 2, 'F');
    assert(b[0] == 123 && b[2] == 67);
    lemma_plit_mismatch(b, 0, lit("\"Quit\""@), 0);
    lemma_plit_mismatch(b, 0, lit("{\"Focus\":{\"selector\":"@), 2);
    assert(b.subrange(0, pre.len() as int) =~= pre);
    assert(b.subrange(pre.len() as int, (pre.len() + mid.len()) as int) =~= mid);
    lemma_sel_rt(b, pre.len() as int, selector);
    assert(b.subrange((pre.len() + mid.len()) as int, b.len() as int) =~= lit("}}"@));
}

#[verifier::rlimit(100)]
proof fn lemma_rt_addworkspace(name: Option<Seq<char>>)
    ensures
        dec_cmd(enc_cmd(CommandView::AddWorkspace { name })) == Some(CommandView::AddWorkspace { name }),
{
    reveal_strlit("\"Quit\"");
    reveal_strlit("{\"Focus\":{\"selector\":");
    reveal_strlit("{\"Close\":{\"selector\":");
    reveal_strlit("{\"AddWorkspace\":{\"name\":");
    reveal_strlit("null");
    reveal_strlit("}}");
    assert(vstd::utf8::is_ascii_chars("\"Quit\""@));
    assert(vstd::utf8::is_ascii_chars("{\"Focus\":{\"selector\":"@));
    assert(vstd::utf8::is_ascii_chars("{\"Close\":{\"selector\":"@));
    assert(vstd::utf8::is_ascii_chars("{\"AddWorkspace\":{\"name\":"@));
    assert(vstd::utf8::is_ascii_chars("null"@));
    assert(vstd::utf8::is_ascii_chars("}}"@));
    lit_byte_is("\"Quit\""@, 0, '"');
    lit_byte_is("}}"@, 0, '}');
    lit_byte_is("}}"@, 1, '}');
    let v = CommandView::AddWorkspace { name };
    let b = enc_cmd(v);
    let pre = lit("{\"AddWorkspace\":{\"name\":"@);
    let mid = match name {
        Some(n) => enc_string(n),
        None => lit("null"@),
    };
    lit_byte_is("{\"AddWorkspace\":{\"name\":"@, 0, '{');
    lit_byte_is("{\"AddWorkspace\":{\"name\":"@, 2, 'A');
    lit_byte_is("{\"Focus\":{\"selector\":"@, 2, 'F');
    lit_byte_is("{\"Close\":{\"selector\":"@, 2, 'C');
    assert(b[0] == 123 && b[2] == 65);
    lemma_plit_mismatch(b, 0, lit("\"Quit\""@), 0);
    lemma_plit_mismatch(b, 0, lit("{\"Focus\":{\"selector\":"@), 2);
    lemma_plit_mismatch(b, 0, lit("{\"Close\":{\"selector\":"@), 2);
    assert(b.subrange(0, pre.len() as int) =~= pre);
    assert(b.subrange(pre.len() as int, (pre.len() + mid.len()) as int) =~= mid);
    match name {
        Some(n) => {
            lit_byte_is("null"@, 0, 'n');
            assert(b[pre.len() as int] == 34);
            lemma_plit_mismatch(b, pre.len() as int, lit("null"@), 0);
            lemma_string_rt(b, pre.len() as int, n);
        },
        None => {},
    }
    assert(b.subrange((pre.len() + mid.len()) as int, b.len() as int) =~= lit("}}"@));
}

/// The earlier command branches all fail on a rename-workspace message.
#[verifier::rlimit(100)]
proof fn lemma_rename_prefix_fails(b: Seq<u8>)
    requires
        b.len() > 2,
        b[0] == 123,
        b[2] == 82,
    ensures
        p_lit(b, 0, lit("\"Quit\""@)) is None,
        p_lit(b, 0, lit("{\"Focus\":{\"selector\":"@)) is None,
        p_lit(b, 0, lit("{\"Close\":{\"selector\":"@)) is None,
        p_lit(b, 0, lit("{\"AddWorkspace\":{\"name\":"@)) is None,
{
    reveal_strlit("\"Quit\"");
    reveal_strlit("{\"Focus\":{\"selector\":");
    reveal_strlit("{\"Close\":{\"selector\":");
    reveal_strlit("{\"AddWorkspace\":{\"name\":");
    assert(vstd::utf8::is_ascii_chars("\"Quit\""@));
    assert(vstd::utf8::is_ascii_chars("{\"Focus\":{\"selector\":"@));
    assert(vstd::utf8::is_ascii_chars("{\"Close\":{\"selector\":"@));
    assert(vstd::utf8::is_ascii_chars("{\"AddWorkspace\":{\"name\":"@));
    lit_byte_is("\"Quit\""@, 0, '"');
    lit_byte_is("{\"Focus\":{\"selector\":"@, 2, 'F');
    lit_byte_is("{\"Close\":{\"selector\":"@, 2, 'C');
    lit_byte_is("{\"AddWorkspace\":{\"name\":"@, 2, 'A');
    lemma_plit_mismatch(b, 0, lit("\"Quit\""@), 0);
    lemma_plit_mismatch(b, 0, lit("{\"Focus\":{\"selector\":"@), 2);
    lemma_plit_mismatch(b, 0, lit("{\"Close\":{\"selector\":"@), 2);
    lemma_plit_mismatch(b, 0, lit("{\"AddWorkspace\":{\"name\":"@), 2);
}

#[verifier::rlimit(100)]
proof fn lemma_rt_renameworkspace(selector: WorkspaceSelectorView, name: Seq<char>)
    requires
        match selector {
    WorkspaceSelectorView::Index(n) => n <= 0xffff_ffff,
    WorkspaceSelectorView::Name(_) => true,
        },
    ensures
        dec_cmd(enc_cmd(CommandView::RenameWorkspace { selector, name })) == Some(
    CommandView::RenameWorkspace { selector, name },
        ),
{
    reveal_strlit("{\"RenameWorkspace\":{\"selector\":");
    reveal_strlit(",\"name\":");
    reveal_strlit("}}");
    assert(vstd::utf8::is_ascii_chars("{\"RenameWorkspace\":{\"selector\":"@));
    assert(vstd::utf8::is_ascii_chars(",\"name\":"@));
    assert(vstd::utf8::is_ascii_chars("}}"@));
    lit_byte_is("}}"@, 0, '}');
    lit_byte_is("}}"@, 1, '}');
    let v = CommandView::RenameWorkspace { selector, name };
    let b = enc_cmd(v);
    let pre = lit("{\"RenameWorkspace\":{\"selector\":"@);
    let ws = enc_wsel(selector);
    let comma = lit(",\"name\":"@);
    let nm = enc_string(name);
    lit_byte_is("{\"RenameWorkspace\":{\"selector\":"@, 0, '{');
    lit_byte_is("{\"RenameWorkspace\":{\"selector\":"@, 2, 'R');
    assert(b[0] == 123 && b[2] == 82);
    lemma_rename_prefix_fails(b);
    assert(b.subrange(0, pre.len() as int) =~= pre);
    assert(b.subrange(pre.len() as int, (pre.len() + ws.len()) as int) =~= ws);
    lemma_wsel_rt(b, pre.len() as int, selector);
    let j2 = (pre.len() + ws.len()) as int;
    assert(b.subrange(j2, (j2 + comma.len()) as int) =~= comma);
    let j3 = j2 + comma.len() as int;
    assert(b.subrange(j3, (j3 + nm.len()) as int) =~= nm);
    lemma_string_rt(b, j3, name);
    assert(b.subrange((j3 + nm.len()) as int, b.len() as int) =~= lit("}}"@));
}

/// The earlier command branches all fail on an activate-workspace message.
#[verifier::rlimit(100)]
proof fn lemma_activate_prefix_fails(b: Seq<u8>)
    requires
        b.len() > 4,
        b[0] == 123,
        b[2] == 65,
        b[3] == 99,
    ensures
        p_lit(b, 0, lit("\"Quit\""@)) is None,
        p_lit(b, 0, lit("{\"Focus\":{\"selector\":"@)) is None,
        p_lit(b, 0, lit("{\"Close\":{\"selector\":"@)) is None,
        p_lit(b, 0, lit("{\"AddWorkspace\":{\"name\":"@)) is None,
        p_lit(b, 0, lit("{\"RenameWorkspace\":{\"selector\":"@)) is None,
{
    reveal_strlit("\"Quit\"");
    reveal_strlit("{\"Focus\":{\"selector\":");
    reveal_strlit("{\"Close\":{\"selector\":");
    reveal_strlit("{\"AddWorkspace\":{\"name\":");
    reveal_strlit("{\"RenameWorkspace\":{\"selector\":");
    assert(vstd::utf8::is_ascii_chars("\"Quit\""@));
    assert(vstd::utf8::is_ascii_chars("{\"Focus\":{\"selector\":"@));
    assert(vstd::utf8::is_ascii_chars("{\"Close\":{\"selector\":"@));
    assert(vstd::utf8::is_ascii_chars("{\"AddWorkspace\":{\"name\":"@));
    assert(vstd::utf8::is_ascii_chars("{\"RenameWorkspace\":{\"selector\":"@));
    lit_byte_is("\"Quit\""@, 0, '"');
    lit_byte_is("{\"Focus\":{\"selector\":"@, 2, 'F');
    lit_byte_is("{\"Close\":{\"selector\":"@, 2, 'C');
    lit_byte_is("{\"AddWorkspace\":{\"name\":"@, 3, 'd');
    lit_byte_is("{\"RenameWorkspace\":{\"selector\":"@, 2, 'R');
    lemma_plit_mismatch(b, 0, lit("\"Quit\""@), 0);
    lemma_plit_mismatch(b, 0, lit("{\"Focus\":{\"selector\":"@), 2);
    lemma_plit_mismatch(b, 0, lit("{\"Close\":{\"selector\":"@), 2);
    lemma_plit_mismatch(b, 0, lit("{\"AddWorkspace\":{\"name\":"@), 3);
    lemma_plit_mismatch(b, 0, lit("{\"RenameWorkspace\":{\"selector\":"@), 2);
}

#[verifier::rlimit(100)]
proof fn lemma_rt_activateworkspace(selector: WorkspaceSelectorView)
    requires
        match selector {
    WorkspaceSelectorView::Index(n) => n <= 0xffff_ffff,
    WorkspaceSelectorView::Name(_) => true,
        },
    ensures
        dec_cmd(enc_cmd(CommandView::ActivateWorkspace { selector })) == Some(
    CommandView::ActivateWorkspace { selector },
        ),
{
    reveal_strlit("{\"ActivateWorkspace\":{\"selector\":");
    reveal_strlit("}}");
    assert(vstd::utf8::is_ascii_chars("{\"ActivateWorkspace\":{\"selector\":"@));
    assert(vstd::utf8::is_ascii_chars("}}"@));
    lit_byte_is("}}"@, 0, '}');
    lit_byte_is("}}"@, 1, '}');
    let v = CommandView::ActivateWorkspace { selector };
    let b = enc_cmd(v);
    let pre = lit("{\"ActivateWorkspace\":{\"selector\":"@);
    let ws = enc_wsel(selector);
    lit_byte_is("{\"ActivateWorkspace\":{\"selector\":"@, 0, '{');
    lit_byte_is("{\"ActivateWorkspace\":{\"selector\":"@, 2, 'A');
    lit_byte_is("{\"ActivateWorkspace\":{\"selector\":"@, 3, 'c');
    assert(b[0] == 123 && b[2] == 65 && b[3] == 99);
    lemma_activate_prefix_fails(b);
    assert(b.subrange(0, pre.len() as int) =~= pre);
    assert(b.subrange(pre.len() as int, (pre.len() + ws.len()) as int) =~= ws);
    lemma_wsel_rt(b, pre.len() as int, selector);
    assert(b.subrange((pre.len() + ws.len()) as int, b.len() as int) =~= lit("}}"@));
}

#[verifier::rlimit(100)]
proof fn lemma_rt_setborderwidth(width: u32)
    ensures
        dec_cmd(enc_cmd(CommandView::SetBorderWidth { width })) == Some(CommandView::SetBorderWidth { width }),
{
    reveal_strlit("\"Quit\"");
    reveal_strlit("{\"Focus\":{\"selector\":");
    reveal_strlit("{\"Close\":{\"selector\":");
    reveal_strlit("{\"AddWorkspace\":{\"name\":");
    reveal_strlit("{\"RenameWorkspace\":{\"selector\":");
    reveal_strlit("{\"ActivateWorkspace\":{\"selector\":");
    reveal_strlit("{\"SetBorderWidth\":{\"width\":");
    reveal_strlit("}}");
    assert(vstd::utf8::is_ascii_chars("\"Quit\""@));
    assert(vstd::utf8::is_ascii_chars("{\"Focus\":{\"selector\":"@));
    assert(vstd::utf8::is_ascii_chars("{\"Close\":{\"selector\":"@));
    assert(vstd::utf8::is_ascii_chars("{\"AddWorkspace\":{\"name\":"@));
    assert(vstd::utf8::is_ascii_chars("{\"RenameWorkspace\":{\"selector\":"@));
    assert(vstd::utf8::is_ascii_chars("{\"ActivateWorkspace\":{\"selector\":"@));
    assert(vstd::utf8::is_ascii_chars("{\"SetBorderWidth\":{\"width\":"@));
    assert(vstd::utf8::is_ascii_chars("}}"@));
    lit_byte_is("\"Quit\""@, 0, '"');
    lit_byte_is("}}"@, 0, '}');
    lit_byte_is("}}"@, 1, '}');
    let v = CommandView::SetBorderWidth { width };
    let b = enc_cmd(v);
    let pre = lit("{\"SetBorderWidth\":{\"width\":"@);
    let num = dec_bytes(width as nat);
    lit_byte_is("{\"SetBorderWidth\":{\"width\":"@, 0, '{');
    lit_byte_is("{\"SetBorderWidth\":{\"width\":"@, 2, 'S');
    lit_byte_is("{\"Focus\":{\"selector\":"@, 2, 'F');
    lit_byte_is("{\"Close\":{\"selector\":"@, 2, 'C');
    lit_byte_is("{\"AddWorkspace\":{\"name\":"@, 2, 'A');
    lit_byte_is("{\"RenameWorkspace\":{\"selector\":"@, 2, 'R');
    lit_byte_is("{\"ActivateWorkspace\":{\"selector\":"@, 2, 'A');
    assert(b[0] == 123 && b[2] == 83);
    lemma_plit_mismatch(b, 0, lit("\"Quit\""@), 0);
    lemma_plit_mismatch(b, 0, lit("{\"Focus\":{\"selector\":"@), 2);
    lemma_plit_mismatch(b, 0, lit("{\"Close\":{\"selector\":"@), 2);
    lemma_plit_mismatch(b, 0, lit("{\"AddWorkspace\":{\"name\":"@), 2);
    lemma_plit_mismatch(b, 0, lit("{\"RenameWorkspace\":{\"selector\":"@), 2);
    lemma_plit_mismatch(b, 0, lit("{\"ActivateWorkspace\":{\"selector\":"@), 2);
    assert(b.subrange(0, pre.len() as int) =~= pre);
    assert(b.subrange(pre.len() as int, (pre.len() + num.len()) as int) =~= num);
    assert(b[(pre.len() + num.len()) as int] == 125);
    lemma_u32_rt(b, pre.len() as int, width as nat);
    assert(b.subrange((pre.len() + num.len()) as int, b.len() as int) =~= lit("}}"@));
}

#[verifier::rlimit(100)]
proof fn lemma_rt_setbordercolor(color: u32)
    ensures
        dec_cmd(enc_cmd(CommandView::SetBorderColor { color })) == Some(CommandView::SetBorderColor { color }),
{
    reveal_strlit("\"Quit\"");
    reveal_strlit("{\"Focus\":{\"selector\":");
    reveal_strlit("{\"Close\":{\"selector\":");
    reveal_strlit("{\"AddWorkspace\":{\"name\":");
    reveal_strlit("{\"RenameWorkspace\":{\"selector\":");
    reveal_strlit("{\"ActivateWorkspace\":{\"selector\":");
    reveal_strlit("{\"SetBorderWidth\":{\"width\":");
    reveal_strlit("{\"SetBorderColor\":{\"color\":");
    reveal_strlit("}}");
    assert(vstd::utf8::is_ascii_chars("\"Quit\""@));
    assert(vstd::utf8::is_ascii_chars("{\"Focus\":{\"selector\":"@));
    assert(vstd::utf8::is_ascii_chars("{\"Close\":{\"selector\":"@));
    assert(vstd::utf8::is_ascii_chars("{\"AddWorkspace\":{\"name\":"@));
    assert(vstd::utf8::is_ascii_chars("{\"RenameWorkspace\":{\"selector\":"@));
    assert(vstd::utf8::is_ascii_chars("{\"ActivateWorkspace\":{\"selector\":"@));
    assert(vstd::utf8::is_ascii_chars("{\"SetBorderWidth\":{\"width\":"@));
    assert(vstd::utf8::is_ascii_chars("{\"SetBorderColor\":{\"color\":"@));
    assert(vstd::utf8::is_ascii_chars("}}"@));
    lit_byte_is("\"Quit\""@, 0, '"');
    lit_byte_is("}}"@, 0, '}');
    lit_byte_is("}}"@, 1, '}');
    let v = CommandView::SetBorderColor { color };
    let b = enc_cmd(v);
    let pre = lit("{\"SetBorderColor\":{\"color\":"@);
    let num = dec_bytes(color as nat);
    lit_byte_is("{\"SetBorderColor\":{\"color\":"@, 0, '{');
    lit_byte_is("{\"SetBorderColor\":{\"color\":"@, 2, 'S');
    lit_byte_is("{\"SetBorderColor\":{\"color\":"@, 11, 'C');
    lit_byte_is("{\"Focus\":{\"selector\":"@, 2, 'F');
    lit_byte_is("{\"Close\":{\"selector\":"@, 2, 'C');
    lit_byte_is("{\"AddWorkspace\":{\"name\":"@, 2, 'A');
    lit_byte_is("{\"RenameWorkspace\":{\"selector\":"@, 2, 'R');
    lit_byte_is("{\"ActivateWorkspace\":{\"selector\":"@, 2, 'A');
    lit_byte_is("{\"SetBorderWidth\":{\"width\":"@, 11, 'W');
    assert(b[0] == 123 && b[2] == 83 && b[11] == 67);
    lemma_plit_mismatch(b, 0, lit("\"Quit\""@), 0);
    lemma_plit_mismatch(b, 0, lit("{\"Focus\":{\"selector\":"@), 2);
    lemma_plit_mismatch(b, 0, lit("{\"Close\":{\"selector\":"@), 2);
    lemma_plit_mismatch(b, 0, lit("{\"AddWorkspace\":{\"name\":"@), 2);
    lemma_plit_mismatch(b, 0, lit("{\"RenameWorkspace\":{\"selector\":"@), 2);
    lemma_plit_mismatch(b, 0, lit("{\"ActivateWorkspace\":{\"selector\":"@), 2);
    lemma_plit_mismatch(b, 0, lit("{\"SetBorderWidth\":{\"width\":"@), 11);
    assert(b.subrange(0, pre.len() as int) =~= pre);
    assert(b.subrange(pre.len() as int, (pre.len() + num.len()) as int) =~= num);
    assert(b[(pre.len() + num.len()) as int] == 125);
    lemma_u32_rt(b, pre.len() as int, color as nat);
    assert(b.subrange((pre.len() + num.len()) as int, b.len() as int) =~= lit("}}"@));
}

#[verifier::rlimit(100)]
proof fn lemma_rt_setfocusedbordercolor(color: u32)
    ensures
        dec_cmd(enc_cmd(CommandView::SetFocusedBorderColor { color })) == Some(CommandView::SetFocusedBorderColor { color }),
{
    reveal_strlit("\"Quit\"");
    reveal_strlit("{\"Focus\":{\"selector\":");
    reveal_strlit("{\"Close\":{\"selector\":");
    reveal_strlit("{\"AddWorkspace\":{\"name\":");
    reveal_strlit("{\"RenameWorkspace\":{\"selector\":");
    reveal_strlit("{\"ActivateWorkspace\":{\"selector\":");
    reveal_strlit("{\"SetBorderWidth\":{\"width\":");
    reveal_strlit("{\"SetBorderColor\":{\"color\":");
    reveal_strlit("{\"SetFocusedBorderColor\":{\"color\":");
    reveal_strlit("}}");
    assert(vstd::utf8::is_ascii_chars("\"Quit\""@));
    assert(vstd::utf8::is_ascii_chars("{\"Focus\":{\"selector\":"@));
    assert(vstd::utf8::is_ascii_chars("{\"Close\":{\"selector\":"@));
    assert(vstd::utf8::is_ascii_chars("{\"AddWorkspace\":{\"name\":"@));
    assert(vstd::utf8::is_ascii_chars("{\"RenameWorkspace\":{\"selector\":"@));
    assert(vstd::utf8::is_ascii_chars("{\"ActivateWorkspace\":{\"selector\":"@));
    assert(vstd::utf8::is_ascii_chars("{\"SetBorderWidth\":{\"width\":"@));
    assert(vstd::utf8::is_ascii_chars("{\"SetBorderColor\":{\"color\":"@));
    assert(vstd::utf8::is_ascii_chars("{\"SetFocusedBorderColor\":{\"color\":"@));
    assert(vstd::utf8::is_ascii_chars("}}"@));
    lit_byte_is("\"Quit\""@, 0, '"');
    lit_byte_is("}}"@, 0, '}');
    lit_byte_is("}}"@, 1, '}');
    let v = CommandView::SetFocusedBorderColor { color };
    let b = enc_cmd(v);
    let pre = lit("{\"SetFocusedBorderColor\":{\"color\":"@);
    let num = dec_bytes(color as nat);
    lit_byte_is("{\"SetFocusedBorderColor\":{\"color\":"@, 0, '{');
    lit_byte_is("{\"SetFocusedBorderColor\":{\"color\":"@, 2, 'S');
    lit_byte_is("{\"SetFocusedBorderColor\":{\"color\":"@, 5, 'F');
    lit_byte_is("{\"Focus\":{\"selector\":"@, 2, 'F');
    lit_byte_is("{\"Close\":{\"selector\":"@, 2, 'C');
    lit_byte_is("{\"AddWorkspace\":{\"name\":"@, 2, 'A');
    lit_byte_is("{\"RenameWorkspace\":{\"selector\":"@, 2, 'R');
    lit_byte_is("{\"ActivateWorkspace\":{\"selector\":"@, 2, 'A');
    lit_byte_is("{\"SetBorderWidth\":{\"width\":"@, 5, 'B');
    lit_byte_is("{\"SetBorderColor\":{\"color\":"@, 5, 'B');
    assert(b[0] == 123 && b[2] == 83 && b[5] == 70);
    lemma_plit_mismatch(b, 0, lit("\"Quit\""@), 0);
    lemma_plit_mismatch(b, 0, lit("{\"Focus\":{\"selector\":"@), 2);
    lemma_plit_mismatch(b, 0, lit("{\"Close\":{\"selector\":"@), 2);
    lemma_plit_mismatch(b, 0, lit("{\"AddWorkspace\":{\"name\":"@), 2);
    lemma_plit_mismatch(b, 0, lit("{\"RenameWorkspace\":{\"selector\":"@), 2);
    lemma_plit_mismatch(b, 0, lit("{\"ActivateWorkspace\":{\"selector\":"@), 2);
    lemma_plit_mismatch(b, 0, lit("{\"SetBorderWidth\":{\"width\":"@), 5);
    lemma_plit_mismatch(b, 0, lit("{\"SetBorderColor\":{\"color\":"@), 5);
    assert(b.subrange(0, pre.len() as int) =~= pre);
    assert(b.subrange(pre.len() as int, (pre.len() + num.len()) as int) =~= num);
    assert(b[(pre.len() + num.len()) as int] == 125);
    lemma_u32_rt(b, pre.len() as int, color as nat);
    assert(b.subrange((pre.len() + num.len()) as int, b.len() as int) =~= lit("}}"@));
}

/// Decoding inverts encoding: the wire round trip reconstructs the command.
pub proof fn lemma_cmd_round_trip(v: CommandView)
    requires
        cmd_bounded(v),
    ensures
        dec_cmd(enc_cmd(v)) == Some(v),
{
    match v {
        CommandView::Quit => lemma_rt_quit(),
        CommandView::Focus { selector } => lemma_rt_focus(selector),
        CommandView::Close { selector } => lemma_rt_close(selector),
        CommandView::AddWorkspace { name } => lemma_rt_addworkspace(name),
        CommandView::RenameWorkspace { selector, name } => lemma_rt_renameworkspace(
            selector,
            name,
        ),
        CommandView::ActivateWorkspace { selector } => lemma_rt_activateworkspace(selector),
        CommandView::SetBorderWidth { width } => lemma_rt_setborderwidth(width),
        CommandView::SetBorderColor { color } => lemma_rt_setbordercolor(color),
        CommandView::SetFocusedBorderColor { color } => lemma_rt_setfocusedbordercolor(color),
    }
}

/// Deserialize one whole message. Anything but the canonical wire form of a
/// command is rejected.
pub fn decode_command(b: &Vec<u8>) -> (r: Option<Command>)
    ensures
        match r {
            Some(c) => dec_cmd(b@) == Some(c@),
            None => dec_cmd(b@) is None,
        },
{
    match parse_cmd(b, 0) {
        Some((c, j)) => {
            if j == b.len() {
                Some(c)
            } else {
                None
            }
        },
        None => None,
    }
}

} // verus!
