//! Building blocks for dot-format graph files: per-node attribute lines.
//!
//! A [`NodeAttributes`] names a node and optionally a label, a style and a
//! color; [`NodeAttributes::write`] renders the attribute line into a byte
//! buffer exactly as the rendering spec says, quoting names with
//! backslash escapes for quotes and backslashes.

use vstd::prelude::*;

use vstd::utf8::encode_utf8;

verus! {

/// Decorations of one graph node.
#[derive(Debug)]
pub struct NodeAttributes {
    node: String,
    label: Option<String>,
    style: Option<String>,
    color: Option<String>,
}

/// A byte, escaped for a quoted dot-file string: quotes and backslashes
/// gain a backslash, everything else passes through.
pub open spec fn escape_byte(b: u8) -> Seq<u8> {
    if b == 34 || b == 92 {
        seq![92u8, b]
    } else {
        seq![b]
    }
}

/// A byte string, escaped for a quoted dot-file string.
pub open spec fn escape_bytes(s: Seq<u8>) -> Seq<u8>
    decreases s.len(),
{
    if s.len() == 0 {
        Seq::empty()
    } else {
        escape_byte(s[0]) + escape_bytes(s.drop_first())
    }
}

/// A quoted dot-file string.
pub open spec fn quoted(s: Seq<char>) -> Seq<u8> {
    seq![34u8] + escape_bytes(encode_utf8(s)) + seq![34u8]
}

/// One `key=value` attribute followed by a space, or nothing.
pub open spec fn attr_chunk(key: Seq<u8>, v: Option<String>) -> Seq<u8> {
    match v {
        Some(s) => key + seq![61u8] + quoted(s@) + seq![32u8],
        None => Seq::empty(),
    }
}

/// The byte name of the `label` attribute.
pub open spec fn label_key() -> Seq<u8> {
    seq![108u8, 97u8, 98u8, 101u8, 108u8]
}

/// The byte name of the `style` attribute.
pub open spec fn style_key() -> Seq<u8> {
    seq![115u8, 116u8, 121u8, 108u8, 101u8]
}

/// The byte name of the `color` attribute.
pub open spec fn color_key() -> Seq<u8> {
    seq![99u8, 111u8, 108u8, 111u8, 114u8]
}

impl NodeAttributes {
    /// The node's name.
    pub closed spec fn spec_node(&self) -> Seq<char> {
        self.node@
    }

    /// The node's label attribute.
    pub closed spec fn spec_label(&self) -> Option<String> {
        self.label
    }

    /// The node's style attribute.
    pub closed spec fn spec_style(&self) -> Option<String> {
        self.style
    }

    /// The node's color attribute.
    pub closed spec fn spec_color(&self) -> Option<String> {
        self.color
    }

    /// The attribute chunks this node renders to, joined, with the
    /// trailing space still attached.
    pub open spec fn spec_attrs(&self) -> Seq<u8> {
        attr_chunk(label_key(), self.spec_label()) + attr_chunk(style_key(), self.spec_style())
            + attr_chunk(color_key(), self.spec_color())
    }

    /// The full rendered line: `"node" [attrs];` and a newline — or
    /// nothing at all when no attribute is set.
    pub open spec fn spec_line(&self) -> Seq<u8> {
        if self.spec_attrs().len() == 0 {
            Seq::empty()
        } else {
            quoted(self.spec_node()) + seq![32u8, 91u8] + self.spec_attrs().drop_last() + seq![
                93u8,
                59u8,
                10u8,
            ]
        }
    }

    /// Decorations for the named node, with nothing set yet.
    pub fn new(node: String) -> (r: NodeAttributes)
        ensures
            r.spec_node() == node@,
            r.spec_label() is None,
            r.spec_style() is None,
            r.spec_color() is None,
    {
        NodeAttributes { node, label: None, style: None, color: None }
    }

    /// Replaces the label attribute.
    pub fn label(self, label: String) -> (r: NodeAttributes)
        ensures
            r.spec_node() == self.spec_node(),
            r.spec_label() == Some(label),
            r.spec_style() == self.spec_style(),
            r.spec_color() == self.spec_color(),
    {
        NodeAttributes { label: Some(label), ..self }
    }

    /// Replaces the style attribute.
    pub fn style(self, style: String) -> (r: NodeAttributes)
        ensures
            r.spec_node() == self.spec_node(),
            r.spec_label() == self.spec_label(),
            r.spec_style() == Some(style),
            r.spec_color() == self.spec_color(),
    {
        NodeAttributes { style: Some(style), ..self }
    }

    /// Replaces the fill color attribute.
    pub fn color(self, fill: String) -> (r: NodeAttributes)
        ensures
            r.spec_node() == self.spec_node(),
            r.spec_label() == self.spec_label(),
            r.spec_style() == self.spec_style(),
            r.spec_color() == Some(fill),
    {
        NodeAttributes { color: Some(fill), ..self }
    }

    /// Appends the rendered attribute line to a byte buffer.
    #[verifier::rlimit(50)]
    pub fn write(&self, out: &mut Vec<u8>)
        ensures
            final(out)@ == old(out)@ + self.spec_line(),
    {
        let mut attrs: Vec<u8> = Vec::new();
        let lkey: [u8; 5] = [108, 97, 98, 101, 108];
        let skey: [u8; 5] = [115, 116, 121, 108, 101];
        let ckey: [u8; 5] = [99, 111, 108, 111, 114];
        proof {
            assert(lkey@ =~= label_key());
            assert(skey@ =~= style_key());
            assert(ckey@ =~= color_key());
        }
        match &self.label {
            Some(v) => {
                crate::util::append_bytes(&mut attrs, lkey.as_slice());
                attrs.push(61);
                push_quoted(&mut attrs, v);
                attrs.push(32);
            },
            None => {
            },
        }
        match &self.style {
            Some(v) => {
                crate::util::append_bytes(&mut attrs, skey.as_slice());
                attrs.push(61);
                push_quoted(&mut attrs, v);
                attrs.push(32);
            },
            None => {
            },
        }
        match &self.color {
            Some(v) => {
                crate::util::append_bytes(&mut attrs, ckey.as_slice());
                attrs.push(61);
                push_quoted(&mut attrs, v);
                attrs.push(32);
            },
            None => {
            },
        }
        proof {
            assert(attrs@ =~= self.spec_attrs());
        }
        if attrs.len() == 0 {
            return ;
        }
        push_quoted(out, &self.node);
        out.push(32);
        out.push(91);
        let upto = attrs.len() - 1;
        crate::util::append_bytes(out, vstd::slice::slice_subrange(attrs.as_slice(), 0, upto));
        out.push(93);
        out.push(59);
        out.push(10);
        proof {
            assert(attrs@.subrange(0, attrs@.len() - 1) =~= self.spec_attrs().drop_last());
            assert(out@ =~= old(out)@ + self.spec_line());
        }
    }
}

/// Appends a quoted, escaped copy of `s`.
fn push_quoted(out: &mut Vec<u8>, s: &String)
    ensures
        final(out)@ == old(out)@ + quoted(s@),
{
    out.push(34);
    let b = s.as_str().as_bytes();
    let ghost sb = encode_utf8(s@);
    let mut i: usize = 0;
    proof {
        assert(sb.skip(0) =~= sb);
    }
    while i < b.len()
        invariant
            i <= b@.len(),
            b@ == sb,
            out@ + escape_bytes(sb.skip(i as int)) == old(out)@ + seq![34u8] + escape_bytes(sb),
        decreases b@.len() - i,
    {
        proof {
            assert(sb.skip(i as int).drop_first() =~= sb.skip(i + 1));
            assert(sb.skip(i as int)[0] == sb[i as int]);
        }
        let c = b[i];
        if c == 34 || c == 92 {
            out.push(92);
            out.push(c);
        } else {
            out.push(c);
        }
        proof {
            assert(out@ + escape_bytes(sb.skip(i + 1)) =~= old(out)@ + seq![34u8] + escape_bytes(
                sb,
            ));
        }
        i = i + 1;
    }
    out.push(34);
    proof {
        assert(sb.skip(sb.len() as int) =~= Seq::<u8>::empty());
        assert(out@ =~= old(out)@ + quoted(s@));
    }
}

/// Options that shape a rendered traceroute graph.
pub struct GraphConfig {
    pub probe_color: Option<String>,
    pub destination_color: Option<String>,
    pub omit_timeouts: bool,
    pub cluster_asn: bool,
    pub weighted_edges: bool,
    pub outbound_weighted_edges: bool,
}

impl Default for GraphConfig {
    /// Probes light blue, timeouts omitted, nodes clustered by AS, and no
    /// edge weighting.
    fn default() -> (r: GraphConfig)
        ensures
            r.probe_color is Some,
            r.destination_color is None,
            r.omit_timeouts,
            r.cluster_asn,
            !r.weighted_edges,
            !r.outbound_weighted_edges,
    {
        let mut c = String::new();
        crate::util::push_char(&mut c, 'l');
        crate::util::push_char(&mut c, 'i');
        crate::util::push_char(&mut c, 'g');
        crate::util::push_char(&mut c, 'h');
        crate::util::push_char(&mut c, 't');
        crate::util::push_char(&mut c, 'b');
        crate::util::push_char(&mut c, 'l');
        crate::util::push_char(&mut c, 'u');
        crate::util::push_char(&mut c, 'e');
        GraphConfig {
            probe_color: Some(c),
            destination_color: None,
            omit_timeouts: true,
            cluster_asn: true,
            weighted_edges: false,
            outbound_weighted_edges: false,
        }
    }
}

} // verus!
