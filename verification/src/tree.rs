//! Compact indented text rendering of the node tree.
//!
//! Example output:
//! ```text
//! Document (frame, 1920x1080)
//!   Header (frame, 1920x80)
//!     Logo (rectangle, 120x40) fill=#1a1a2e
//!     Title (text) "Wisp v0.1"
//! ```
//!
//! Sizes are binary64 values; the renderer asks the caller for their text, through
//! a formatter that maps a bit pattern to its decimal text.
use vstd::prelude::*;
use vstd::string::*;
use crate::model::{Measure, Node, NodeId, NodeType, NodeView};
use crate::store::{NodeStore, StoreView};
use crate::text::{ends_with_newline, pop_char, push_signed, signed_decimal};
use vstd::arithmetic::power2::{pow2, lemma2_to64, lemma_pow2_strictly_increases};
use vstd::bits::{lemma_u64_shl_is_mul, lemma_u64_shr_is_div, lemma_u64_low_bits_mask_is_mod, low_bits_mask, lemma_u64_pow2_no_overflow};

verus! {

/// The lower-case name of a node type.
pub open spec fn type_text(t: NodeType) -> Seq<char> {
    match t {
        NodeType::Frame => "frame"@,
        NodeType::Text => "text"@,
        NodeType::Rectangle => "rectangle"@,
        NodeType::Ellipse => "ellipse"@,
        NodeType::Group => "group"@,
    }
}

/// The binary64 value with bit pattern `b` is greater than zero (NaN is not).
pub open spec fn is_positive(b: Measure) -> bool {
    1 <= b && b <= 0x7ff0_0000_0000_0000
}

/// Two spaces per level.
pub open spec fn indent(depth: nat) -> Seq<char>
    decreases depth,
{
    if depth == 0 {
        Seq::empty()
    } else {
        indent((depth - 1) as nat) + "  "@
    }
}

/// `label` followed by the text, when there is one.
pub open spec fn opt_suffix(label: Seq<char>, v: Option<Seq<char>>) -> Seq<char> {
    match v {
        Some(t) => label + t,
        None => Seq::empty(),
    }
}

/// The dimensions part of a node's annotation, present when either size is positive.
pub open spec fn size_part(n: NodeView, num: spec_fn(Measure) -> Seq<char>) -> Seq<char> {
    if is_positive(n.layout.width) || is_positive(n.layout.height) {
        ", "@ + num(n.layout.width) + "x"@ + num(n.layout.height)
    } else {
        Seq::empty()
    }
}

/// The quoted text content, when the node has one.
pub open spec fn content_part(n: NodeView) -> Seq<char> {
    match n.typography.content {
        Some(c) => " \""@ + c + "\""@,
        None => Seq::empty(),
    }
}

/// One line of the rendering: indentation, name, type and size, fill, stroke,
/// quoted text content, newline.
pub open spec fn node_line(n: NodeView, depth: nat, num: spec_fn(Measure) -> Seq<char>) -> Seq<
    char,
> {
    indent(depth) + n.name + " ("@ + type_text(n.node_type) + size_part(n, num) + ")"@
        + opt_suffix(" fill="@, n.style.fill) + opt_suffix(" stroke="@, n.style.stroke)
        + content_part(n) + "\n"@
}

/// The lines of the subtree of `id`, in pre-order, children in their order.
pub open spec fn render_from(
    v: StoreView,
    id: NodeId,
    depth: nat,
    fuel: nat,
    num: spec_fn(Measure) -> Seq<char>,
) -> Seq<char>
    decreases fuel, 0nat,
{
    if fuel == 0 || !v.nodes.contains_key(id) {
        Seq::empty()
    } else {
        node_line(v.nodes[id], depth, num) + render_children(
            v,
            v.nodes[id].children,
            depth + 1,
            (fuel - 1) as nat,
            num,
        )
    }
}

/// The renderings of the subtrees of `ch`, one after the other.
pub open spec fn render_children(
    v: StoreView,
    ch: Seq<NodeId>,
    depth: nat,
    fuel: nat,
    num: spec_fn(Measure) -> Seq<char>,
) -> Seq<char>
    decreases fuel, ch.len() + 1,
{
    if ch.len() == 0 {
        Seq::empty()
    } else {
        render_children(v, ch.drop_last(), depth, fuel, num) + render_from(
            v,
            ch.last(),
            depth,
            fuel,
            num,
        )
    }
}

/// `s` without its last character when that character is a newline.
pub open spec fn strip_newline(s: Seq<char>) -> Seq<char> {
    if s.len() > 0 && s.last() == '\n' {
        s.drop_last()
    } else {
        s
    }
}

/// The whole rendering of a store.
pub open spec fn render_text(v: StoreView, num: spec_fn(Measure) -> Seq<char>) -> Seq<char> {
    strip_newline(render_from(v, v.root_id, 0, v.nodes.len(), num))
}

/// `num` says what `fmt` returns for every bit pattern.
pub open spec fn formats<F: Fn(Measure) -> String>(fmt: F, num: spec_fn(Measure) -> Seq<char>) -> bool {
    forall|b: Measure, s: String| #[trigger] fmt.ensures((b,), s) ==> s@ == num(b)
}

/// Render the node tree as a compact indented text format; `fmt_num` gives the
/// text of a size.
pub fn render_tree<F: Fn(Measure) -> String>(store: &NodeStore, fmt_num: &F) -> (r: String)
    requires
        store.wf(),
        forall|b: Measure| #[trigger] fmt_num.requires((b,)),
    ensures
        forall|num: spec_fn(Measure) -> Seq<char>| #[trigger]
            formats(*fmt_num, num) ==> r@ == render_text(store@, num),
{
    let mut output = String::new();
    let root = store.root_id();
    proof {
        store.lemma_root();
    }
    render_node(store, root, 0, &mut output, fmt_num);
    // Remove trailing newline
    if ends_with_newline(output.as_str()) {
        pop_char(&mut output);
    }
    output
}

/// Appends the text `t`.
fn append_text(output: &mut String, t: &String)
    ensures
        final(output)@ == old(output)@ + t@,
{
    output.append(t.as_str());
}

/// Appends the rendering of the subtree of `id` at the given depth.
fn render_node<F: Fn(Measure) -> String>(
    store: &NodeStore,
    id: NodeId,
    depth: usize,
    output: &mut String,
    fmt_num: &F,
)
    requires
        store.wf(),
        store@.nodes.contains_key(id),
        depth == store.level(id),
        forall|b: Measure| #[trigger] fmt_num.requires((b,)),
    ensures
        forall|num: spec_fn(Measure) -> Seq<char>| #[trigger]
            formats(*fmt_num, num) ==> final(output)@ == old(output)@ + render_from(
                store@,
                id,
                depth as nat,
                (store@.nodes.len() - store.level(id)) as nat,
                num,
            ),
    decreases store@.nodes.len() - store.level(id),
{
    let ghost v = store@;
    let ghost out0 = output@;
    proof {
        store.lemma_level(id);
    }
    let node = match store.get(id) {
        Ok(n) => n,
        Err(_) => {
            return ;
        },
    };
    let ghost n = v.nodes[id];
    let line = line_text(node, depth, fmt_num);
    output.append(line.as_str());
    let ghost line_end = output@;
    // Render children in order
    let ghost ch = n.children;
    let ghost fuel = (v.nodes.len() - store.level(id) - 1) as nat;
    let count = node.children.len();
    let mut j: usize = 0;
    while j < count
        invariant
            store.wf(),
            v == store@,
            v.nodes.contains_key(id),
            n == v.nodes[id],
            ch == n.children,
            node.children@ == ch,
            count == ch.len(),
            0 <= j <= count,
            depth == store.level(id),
            fuel + store.level(id) + 1 == v.nodes.len(),
            v.nodes.len() <= usize::MAX,
            forall|k: int|
                0 <= k < ch.len() ==> v.nodes.contains_key(#[trigger] ch[k]) && store.level(ch[k])
                    == store.level(id) + 1,
            forall|b: Measure| #[trigger] fmt_num.requires((b,)),
            forall|num: spec_fn(Measure) -> Seq<char>| #[trigger]
                formats(*fmt_num, num) ==> output@ == line_end + render_children(
                    v,
                    ch.take(j as int),
                    depth as nat + 1,
                    fuel,
                    num,
                ),
        decreases count - j,
    {
        let child_id = node.children[j];
        let ghost before = output@;
        render_node(store, child_id, depth + 1, output, fmt_num);
        assert forall|num: spec_fn(Measure) -> Seq<char>| #[trigger]
            formats(*fmt_num, num) implies output@ == line_end + render_children(
                v,
                ch.take(j + 1),
                depth as nat + 1,
                fuel,
                num,
            ) by {
            assert(ch.take(j + 1).drop_last() =~= ch.take(j as int));
            assert(ch.take(j + 1).last() == ch[j as int]);
        }
        j = j + 1;
    }
    assert(ch.take(count as int) =~= ch);
}

/// The line of one node at the given depth.
fn line_text<F: Fn(Measure) -> String>(node: &Node, depth: usize, fmt_num: &F) -> (line: String)
    requires
        forall|b: Measure| #[trigger] fmt_num.requires((b,)),
    ensures
        forall|num: spec_fn(Measure) -> Seq<char>| #[trigger]
            formats(*fmt_num, num) ==> line@ == node_line(node@, depth as nat, num),
{
    let ghost n = node@;
    let mut line = String::new();
    let mut i: usize = 0;
    while i < depth
        invariant
            0 <= i <= depth,
            line@ == indent(i as nat),
        decreases depth - i,
    {
        line.append("  ");
        i = i + 1;
    }
    line.append(node.name.as_str());
    line.append(" (");
    line.append(type_str(node.node_type));
    let ghost after_type = line@;
    let ghost mut w_text: Seq<char> = Seq::empty();
    let ghost mut h_text: Seq<char> = Seq::empty();
    let positive = is_positive_measure(node.layout.width) || is_positive_measure(
        node.layout.height,
    );
    if positive {
        line.append(", ");
        let w = fmt_num(node.layout.width);
        line.append(w.as_str());
        line.append("x");
        let h = fmt_num(node.layout.height);
        line.append(h.as_str());
        proof {
            w_text = w@;
            h_text = h@;
            assert forall|num: spec_fn(Measure) -> Seq<char>| #[trigger]
                formats(*fmt_num, num) implies w_text == num(n.layout.width) && h_text == num(
                n.layout.height,
            ) by {
                assert(fmt_num.ensures((n.layout.width,), w));
                assert(fmt_num.ensures((n.layout.height,), h));
            }
        }
        assert(line@ =~= after_type + (", "@ + w_text + "x"@ + h_text));
    }
    let ghost after_size = line@;
    line.append(")");
    let ghost after_close = line@;
    if let Some(fill) = &node.style.fill {
        line.append(" fill=");
        line.append(fill.as_str());
    }
    assert(line@ =~= after_close + opt_suffix(" fill="@, n.style.fill));
    let ghost after_fill = line@;
    if let Some(stroke) = &node.style.stroke {
        line.append(" stroke=");
        line.append(stroke.as_str());
    }
    assert(line@ =~= after_fill + opt_suffix(" stroke="@, n.style.stroke));
    let ghost after_stroke = line@;
    if let Some(content) = &node.typography.content {
        line.append(" \"");
        line.append(content.as_str());
        line.append("\"");
    }
    assert(line@ =~= after_stroke + content_part(n));
    line.append("\n");
    assert forall|num: spec_fn(Measure) -> Seq<char>| #[trigger]
        formats(*fmt_num, num) implies line@ == node_line(n, depth as nat, num) by {
        if positive {
            assert(size_part(n, num) == ", "@ + w_text + "x"@ + h_text);
        } else {
            assert(after_size =~= after_type + size_part(n, num));
        }
    }
    line
}

/// The lower-case name of a node type.
fn type_str(t: NodeType) -> (r: &'static str)
    ensures
        r@ == type_text(t),
{
    match t {
        NodeType::Frame => "frame",
        NodeType::Text => "text",
        NodeType::Rectangle => "rectangle",
        NodeType::Ellipse => "ellipse",
        NodeType::Group => "group",
    }
}

/// Whether the binary64 value with bit pattern `b` is greater than zero.
pub fn is_positive_measure(b: Measure) -> (r: bool)
    ensures
        r == is_positive(b),
{
    1 <= b && b <= 0x7ff0_0000_0000_0000
}

/// The sign bit of a binary64 bit pattern.
pub open spec fn sign_bit(b: Measure) -> nat {
    (b / 0x8000_0000_0000_0000) as nat
}

/// The biased exponent field of a binary64 bit pattern.
pub open spec fn exponent_field(b: Measure) -> nat {
    ((b / 0x10_0000_0000_0000) % 0x800) as nat
}

/// The fraction field of a binary64 bit pattern.
pub open spec fn fraction_field(b: Measure) -> nat {
    (b % 0x10_0000_0000_0000) as nat
}

/// The magnitude of a finite binary64 value, when that value is a whole number.
pub open spec fn whole_magnitude(b: Measure) -> Option<nat> {
    let e = exponent_field(b);
    let f = fraction_field(b);
    if e == 0 {
        // zero, or a subnormal strictly between 0 and 1
        if f == 0 {
            Some(0)
        } else {
            None
        }
    } else {
        let sig = f + 0x10_0000_0000_0000;
        if e >= 1075 {
            Some(sig * pow2((e - 1075) as nat))
        } else if sig % pow2((1075 - e) as nat) == 0 {
            Some(sig / pow2((1075 - e) as nat))
        } else {
            None
        }
    }
}

/// `n as i64` for a binary64 value `n` equal to its floor (a whole number or an
/// infinity), saturated at the bounds of `i64`; `None` for a fraction or NaN.
pub open spec fn whole_number(b: Measure) -> Option<int> {
    let neg = sign_bit(b) == 1;
    if exponent_field(b) == 0x7ff {
        if fraction_field(b) == 0 {
            Some(if neg { i64::MIN as int } else { i64::MAX as int })
        } else {
            None
        }
    } else {
        match whole_magnitude(b) {
            Some(v) => Some(
                if neg {
                    if v > 0x8000_0000_0000_0000 {
                        i64::MIN as int
                    } else {
                        -v
                    }
                } else {
                    if v > i64::MAX {
                        i64::MAX as int
                    } else {
                        v as int
                    }
                },
            ),
            None => None,
        }
    }
}

/// The value of a binary64 bit pattern as `n as i64` gives it, when `n` equals its
/// floor; `None` when it does not (a fraction or NaN).
pub fn whole_number_value(b: Measure) -> (r: Option<i64>)
    ensures
        match r {
            Some(v) => whole_number(b) == Some(v as int),
            None => whole_number(b) is None,
        },
{
    assert(b >> 63 == b / 0x8000_0000_0000_0000) by (bit_vector);
    assert((b >> 52) & 0x7ff == (b / 0x10_0000_0000_0000) % 0x800) by (bit_vector);
    assert(b & 0xf_ffff_ffff_ffff == b % 0x10_0000_0000_0000) by (bit_vector);
    let neg = (b >> 63) == 1;
    let e = (b >> 52) & 0x7ff;
    let f = b & 0xf_ffff_ffff_ffff;
    proof {
        lemma2_to64();
    }
    if e == 0x7ff {
        if f == 0 {
            return Some(if neg { i64::MIN } else { i64::MAX });
        } else {
            return None;
        }
    }
    if e == 0 {
        if f == 0 {
            return Some(0);
        } else {
            return None;
        }
    }
    let sig: u64 = f + 0x10_0000_0000_0000;
    if e >= 1075 {
        let k = e - 1075;
        if k >= 11 {
            proof {
                if k > 11 {
                    lemma_pow2_strictly_increases(11, k as nat);
                }
                assert(sig * pow2(k as nat) >= 0x10_0000_0000_0000 * pow2(11)) by (nonlinear_arith)
                    requires
                        sig >= 0x10_0000_0000_0000,
                        pow2(k as nat) >= pow2(11),
                ;
            }
            return Some(if neg { i64::MIN } else { i64::MAX });
        }
        proof {
            if k < 10 {
                lemma_pow2_strictly_increases(k as nat, 10);
            }
            assert(sig * pow2(k as nat) < 0x20_0000_0000_0000 * 0x400) by (nonlinear_arith)
                requires
                    sig < 0x20_0000_0000_0000,
                    0 < pow2(k as nat) <= 0x400,
            ;
            lemma_u64_shl_is_mul(sig, k);
        }
        let v: u64 = sig << k;
        return Some(if neg { -(v as i64) } else { v as i64 });
    }
    let s = 1075 - e;
    if s >= 53 {
        proof {
            vstd::arithmetic::power2::lemma2_to64_rest();
            if s > 53 {
                lemma_pow2_strictly_increases(53, s as nat);
            }
            assert(sig < pow2(s as nat));
            assert((sig as nat) % pow2(s as nat) == sig as nat) by {
                vstd::arithmetic::div_mod::lemma_small_mod(sig as nat, pow2(s as nat));
            }
        }
        return None;
    }
    proof {
        lemma_u64_pow2_no_overflow(s as nat);
        lemma_u64_shl_is_mul(1, s);
        lemma_u64_low_bits_mask_is_mod(sig, s as nat);
        lemma_u64_shr_is_div(sig, s);
    }
    let mask: u64 = (1u64 << s) - 1;
    assert(mask == low_bits_mask(s as nat) as u64);
    if sig & mask != 0 {
        return None;
    }
    let v: u64 = sig >> s;
    assert(v < 0x20_0000_0000_0000) by {
        vstd::arithmetic::div_mod::lemma_div_is_ordered_by_denominator(sig as int, 1, pow2(s as nat) as int);
    }
    Some(if neg { -(v as i64) } else { v as i64 })
}

/// The decimal text of a binary64 value that equals its floor, as `format!("{}", n as i64)`
/// gives it; `None` for a fraction or NaN, whose text the caller's float formatting gives.
pub fn whole_number_text(b: Measure) -> (r: Option<String>)
    ensures
        match r {
            Some(t) => whole_number(b) matches Some(v) && t@ == signed_decimal(v),
            None => whole_number(b) is None,
        },
{
    match whole_number_value(b) {
        Some(v) => {
            let mut t = String::new();
            push_signed(&mut t, v);
            Some(t)
        },
        None => None,
    }
}

/// A node's line shows its dimensions exactly when its width or its height is
/// positive, one of them sufficing: then it reads ", WxH" with both sizes (a node
/// 300 wide and 0 high shows ", 300x0"); otherwise nothing is shown.
pub proof fn law_size_shown_when_either_positive(n: NodeView, num: spec_fn(Measure) -> Seq<char>)
    ensures
        (size_part(n, num).len() > 0) == (is_positive(n.layout.width) || is_positive(n.layout.height)),
        is_positive(n.layout.width) || is_positive(n.layout.height) ==> size_part(n, num)
            == ", "@ + num(n.layout.width) + "x"@ + num(n.layout.height),
        !is_positive(n.layout.width) && !is_positive(n.layout.height) ==> size_part(n, num)
            == Seq::<char>::empty(),
{
    if is_positive(n.layout.width) || is_positive(n.layout.height) {
        reveal_strlit(", ");
        assert((", "@ + num(n.layout.width) + "x"@ + num(n.layout.height)).len() > 0);
    }
}

/// A bit pattern is positive exactly when it encodes a binary64 value greater than
/// zero: the sign bit is clear, it is not zero, and it is not a NaN.
pub proof fn law_positive_is_greater_than_zero(b: Measure)
    ensures
        is_positive(b) == (sign_bit(b) == 0 && !(exponent_field(b) == 0 && fraction_field(b) == 0)
            && !(exponent_field(b) == 0x7ff && fraction_field(b) != 0)),
{
}

/// The indentation of a line at depth `d` is `2 * d` spaces.
pub proof fn law_indent_two_spaces_per_level(d: nat)
    ensures
        indent(d).len() == 2 * d,
        forall|i: int| 0 <= i < indent(d).len() ==> #[trigger] indent(d)[i] == ' ',
    decreases d,
{
    reveal_strlit("  ");
    if d > 0 {
        law_indent_two_spaces_per_level((d - 1) as nat);
        let prev = indent((d - 1) as nat);
        assert forall|i: int| 0 <= i < indent(d).len() implies #[trigger] indent(d)[i] == ' ' by {
            if i < prev.len() {
                assert(indent(d)[i] == prev[i]);
            } else {
                assert(indent(d)[i] == "  "@[i - prev.len()]);
            }
        }
    }
}

} // verus!
