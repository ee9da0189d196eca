//! The query plan: a chain of root, child and descendant steps, each step after the
//! root carrying the member label it matches.
use aligners::alignment::One;
use aligners::AlignedBytes;
use vstd::prelude::*;
use vstd::utf8::encode_utf8;
use vstd::string::{StringExecFns, StringSliceAdditionalSpecFns};

verus! {

/// Alignment of a label's bytes.
pub type LabelAlignment = One;

/// Bytes in a buffer aligned to `LabelAlignment`.
#[verifier::external_body]
pub struct AlignedLabelBytes {
    bytes: AlignedBytes<LabelAlignment>,
}

/// The bytes held by an aligned buffer.
pub uninterp spec fn aligned_content(b: AlignedLabelBytes) -> Seq<u8>;

/// Relies on `AlignedBytes::new_padded`: an aligned copy of the given bytes. Under the
/// one-byte alignment no padding is added, and an empty slice gives the empty buffer.
#[verifier::external_body]
fn aligned_copy(b: &[u8]) -> (r: AlignedLabelBytes)
    ensures
        aligned_content(r) == b@,
{
    AlignedLabelBytes { bytes: AlignedBytes::<LabelAlignment>::new_padded(b) }
}

/// Relies on the `Deref` impls of `AlignedBytes` and `AlignedSlice`: the bytes held, as a slice.
#[verifier::external_body]
fn aligned_slice(b: &AlignedLabelBytes) -> (r: &[u8])
    ensures
        r@ == aligned_content(*b),
{
    let s: &[u8] = &b.bytes;
    s
}

/// The byte of a double quote `"`.
pub const QUOTE: u8 = 34;

/// The bytes of `s` between two double quotes.
pub open spec fn quoted(s: Seq<u8>) -> Seq<u8> {
    seq![QUOTE] + s + seq![QUOTE]
}

/// A member name to look for in a document, kept as aligned bytes, bare and quoted.
pub struct Label {
    label: AlignedLabelBytes,
    label_with_quotes: AlignedLabelBytes,
    text: String,
}

impl Label {
    /// The label's bytes.
    pub closed spec fn spec_bytes(&self) -> Seq<u8> {
        aligned_content(self.label)
    }

    /// The label's bytes between double quotes.
    pub closed spec fn spec_bytes_with_quotes(&self) -> Seq<u8> {
        aligned_content(self.label_with_quotes)
    }

    /// The bytes are the UTF-8 encoding of the text, and the quoted bytes are the
    /// bytes between two quotes.
    pub closed spec fn wf(&self) -> bool {
        &&& self.spec_bytes() == encode_utf8(self.spec_text())
        &&& self.spec_bytes_with_quotes() == quoted(self.spec_bytes())
    }

    /// The label as text.
    pub closed spec fn spec_text(&self) -> Seq<char> {
        self.text@
    }

    /// A label for the member name `label`.
    pub fn new(label: &str) -> (r: Label)
        ensures
            r.wf(),
            r.spec_bytes() == label.spec_bytes(),
            r.spec_bytes_with_quotes() == quoted(label.spec_bytes()),
            r.spec_text() == label@,
    {
        let bytes = label.as_bytes();
        let mut with_quotes: Vec<u8> = Vec::new();
        with_quotes.push(QUOTE);
        let mut i: usize = 0;
        while i < bytes.len()
            invariant
                i <= bytes@.len(),
                with_quotes@ == seq![QUOTE] + bytes@.subrange(0, i as int),
            decreases bytes.len() - i,
        {
            with_quotes.push(bytes[i]);
            i = i + 1;
            assert(with_quotes@ =~= seq![QUOTE] + bytes@.subrange(0, i as int));
        }
        with_quotes.push(QUOTE);
        assert(bytes@.subrange(0, bytes@.len() as int) =~= bytes@);
        assert(with_quotes@ =~= quoted(bytes@));
        Label {
            label: aligned_copy(bytes),
            label_with_quotes: aligned_copy(with_quotes.as_slice()),
            text: label.to_owned(),
        }
    }

    /// The label's bytes.
    pub fn bytes(&self) -> (r: &[u8])
        ensures
            r@ == self.spec_bytes(),
    {
        aligned_slice(&self.label)
    }

    /// The label's bytes with a double quote `"` before and after.
    pub fn bytes_with_quotes(&self) -> (r: &[u8])
        ensures
            r@ == self.spec_bytes_with_quotes(),
    {
        aligned_slice(&self.label_with_quotes)
    }

    /// The label as text.
    pub fn text(&self) -> (r: &str)
        ensures
            r@ == self.spec_text(),
    {
        self.text.as_str()
    }

    /// Whether `other` is exactly this label's bytes.
    pub fn eq_bytes(&self, other: &[u8]) -> (r: bool)
        ensures
            r == (self.spec_bytes() == other@),
    {
        same_bytes(self.bytes(), other)
    }
}

/// Whether `bytes` is exactly `label`'s bytes.
pub fn bytes_eq_label(bytes: &[u8], label: &Label) -> (r: bool)
    ensures
        r == (bytes@ == label.spec_bytes()),
{
    same_bytes(bytes, label.bytes())
}

/// Comparing a label with a byte range gives the same answer from either side.
pub proof fn lemma_label_equality_symmetric(label: Label, bytes: Seq<u8>)
    requires
        label.wf(),
    ensures
        (label.spec_bytes() == bytes) == (bytes == label.spec_bytes()),
        (label.spec_bytes() == bytes) == (label.spec_bytes_with_quotes() == quoted(bytes)),
{
    if label.spec_bytes_with_quotes() == quoted(bytes) {
        let q = quoted(bytes);
        assert(label.spec_bytes() =~= q.subrange(1, q.len() - 1));
        assert(bytes =~= q.subrange(1, q.len() - 1));
    }
}

fn same_bytes(a: &[u8], b: &[u8]) -> (r: bool)
    ensures
        r == (a@ == b@),
{
    if a.len() != b.len() {
        return false;
    }
    let mut i: usize = 0;
    while i < a.len()
        invariant
            a@.len() == b@.len(),
            i <= a@.len(),
            forall|k: int| 0 <= k < i ==> a@[k] == b@[k],
        decreases a.len() - i,
    {
        if a[i] != b[i] {
            return false;
        }
        i = i + 1;
    }
    assert(a@ =~= b@);
    true
}

impl std::ops::Deref for Label {
    type Target = [u8];

    fn deref(&self) -> (r: &[u8])
        ensures
            r@ == self.spec_bytes(),
    {
        self.bytes()
    }
}

impl PartialEq for Label {
    fn eq(&self, other: &Label) -> (r: bool) {
        same_bytes(self.bytes(), other.bytes())
    }
}

impl vstd::std_specs::cmp::PartialEqSpecImpl for Label {
    open spec fn obeys_eq_spec() -> bool {
        true
    }

    open spec fn eq_spec(&self, other: &Label) -> bool {
        self.spec_bytes() == other.spec_bytes()
    }
}

impl Eq for Label {

}

impl PartialEq<[u8]> for Label {
    fn eq(&self, other: &[u8]) -> (r: bool) {
        same_bytes(self.bytes(), other)
    }
}

impl vstd::std_specs::cmp::PartialEqSpecImpl<[u8]> for Label {
    open spec fn obeys_eq_spec() -> bool {
        true
    }

    open spec fn eq_spec(&self, other: &[u8]) -> bool {
        self.spec_bytes() == other@
    }
}

impl PartialEq<Label> for [u8] {
    fn eq(&self, other: &Label) -> (r: bool) {
        same_bytes(self, other.bytes())
    }
}

impl vstd::std_specs::cmp::PartialEqSpecImpl<Label> for [u8] {
    open spec fn obeys_eq_spec() -> bool {
        true
    }

    open spec fn eq_spec(&self, other: &Label) -> bool {
        self@ == other.spec_bytes()
    }
}


impl<'a> PartialEq<&'a [u8]> for Label {
    fn eq(&self, other: &&'a [u8]) -> (r: bool) {
        same_bytes(self.bytes(), *other)
    }
}

impl<'a> vstd::std_specs::cmp::PartialEqSpecImpl<&'a [u8]> for Label {
    open spec fn obeys_eq_spec() -> bool {
        true
    }

    open spec fn eq_spec(&self, other: &&'a [u8]) -> bool {
        self.spec_bytes() == other@
    }
}

impl<'a> PartialEq<Label> for &'a [u8] {
    fn eq(&self, other: &Label) -> (r: bool) {
        same_bytes(*self, other.bytes())
    }
}

impl<'a> vstd::std_specs::cmp::PartialEqSpecImpl<Label> for &'a [u8] {
    open spec fn obeys_eq_spec() -> bool {
        true
    }

    open spec fn eq_spec(&self, other: &Label) -> bool {
        self@ == other.spec_bytes()
    }
}

/// One step of a query, owning the step after it.
pub enum JsonPathQueryNode {
    /// The root `$`, where every query starts.
    Root(Option<Box<JsonPathQueryNode>>),
    /// A direct child (`.`) with the given member label.
    Child(Label, Option<Box<JsonPathQueryNode>>),
    /// A descendant at any depth (`..`) with the given member label.
    Descendant(Label, Option<Box<JsonPathQueryNode>>),
}

/// The label of a step, if it has one.
pub open spec fn step_label(n: Option<JsonPathQueryNode>) -> Option<Label> {
    match n {
        Some(JsonPathQueryNode::Child(l, _)) => Some(l),
        Some(JsonPathQueryNode::Descendant(l, _)) => Some(l),
        _ => None,
    }
}

/// The text of one step alone: `$`, `.['name']` or `..['name']`.
pub open spec fn render_step(n: JsonPathQueryNode) -> Seq<char> {
    match n {
        JsonPathQueryNode::Root(_) => seq!['$'],
        JsonPathQueryNode::Child(l, _) => seq!['.', '[', '\''] + l.spec_text() + seq!['\'', ']'],
        JsonPathQueryNode::Descendant(l, _) => seq!['.', '.', '[', '\''] + l.spec_text() + seq![
            '\'',
            ']',
        ],
    }
}

/// The text of a chain of steps: each step's text, in order.
pub open spec fn render(n: JsonPathQueryNode) -> Seq<char>
    decreases n,
{
    match n {
        JsonPathQueryNode::Root(Some(next)) => render_step(n) + render(*next),
        JsonPathQueryNode::Child(_, Some(next)) => render_step(n) + render(*next),
        JsonPathQueryNode::Descendant(_, Some(next)) => render_step(n) + render(*next),
        _ => render_step(n),
    }
}

impl JsonPathQueryNode {
    /// The step after this one.
    pub open spec fn spec_child(&self) -> Option<JsonPathQueryNode> {
        match self {
            JsonPathQueryNode::Root(Some(next)) => Some(**next),
            JsonPathQueryNode::Child(_, Some(next)) => Some(**next),
            JsonPathQueryNode::Descendant(_, Some(next)) => Some(**next),
            _ => None,
        }
    }

    /// The step after this one, or `None` for the last step of the chain.
    pub fn child(&self) -> (r: Option<&JsonPathQueryNode>)
        ensures
            r is None <==> self.spec_child() is None,
            r matches Some(c) ==> self.spec_child() == Some(*c),
    {
        match self {
            JsonPathQueryNode::Root(Some(next)) => Some(&**next),
            JsonPathQueryNode::Child(_, Some(next)) => Some(&**next),
            JsonPathQueryNode::Descendant(_, Some(next)) => Some(&**next),
            _ => None,
        }
    }

    /// The query text of this step and every step after it.
    pub fn to_query_string(&self) -> (r: String)
        ensures
            r@ == render(*self),
            r@.len() >= render_step(*self).len(),
            r@.subrange(0, render_step(*self).len() as int) == render_step(*self),
        decreases self,
    {
        let mut text = String::new();
        let next = match self {
            JsonPathQueryNode::Root(next) => {
                text.append("$");
                next
            },
            JsonPathQueryNode::Child(label, next) => {
                text.append(".['");
                text.append(label.text());
                text.append("']");
                next
            },
            JsonPathQueryNode::Descendant(label, next) => {
                text.append("..['");
                text.append(label.text());
                text.append("']");
                next
            },
        };
        proof {
            reveal_strlit("$");
            reveal_strlit(".['");
            reveal_strlit("..['");
            reveal_strlit("']");
            assert(text@ =~= render_step(*self));
        }
        match next {
            Some(node) => {
                let rest = node.to_query_string();
                text.append(rest.as_str());
            },
            None => {},
        }
        text
    }
}

/// What kind of step a value stands for, and the label it carries.
pub trait JsonPathQueryNodeType {
    /// The step this value stands for, if any.
    spec fn step(&self) -> Option<JsonPathQueryNode>;

    /// Whether the step is the root `$`.
    fn is_root(&self) -> (r: bool)
        ensures
            r == (self.step() matches Some(JsonPathQueryNode::Root(_))),
    ;

    /// Whether the step is a descendant step `..`.
    fn is_descendant(&self) -> (r: bool)
        ensures
            r == (self.step() matches Some(JsonPathQueryNode::Descendant(_, _))),
    ;

    /// Whether the step is a direct child step `.`.
    fn is_child(&self) -> (r: bool)
        ensures
            r == (self.step() matches Some(JsonPathQueryNode::Child(_, _))),
    ;

    /// The label of a child or descendant step; `None` otherwise.
    fn label(&self) -> (r: Option<&Label>)
        ensures
            r is None <==> step_label(self.step()) is None,
            r matches Some(l) ==> step_label(self.step()) == Some(*l),
    ;
}

impl JsonPathQueryNodeType for JsonPathQueryNode {
    open spec fn step(&self) -> Option<JsonPathQueryNode> {
        Some(*self)
    }

    fn is_root(&self) -> (r: bool) {
        matches!(self, JsonPathQueryNode::Root(_))
    }

    fn is_descendant(&self) -> (r: bool) {
        matches!(self, JsonPathQueryNode::Descendant(_, _))
    }

    fn is_child(&self) -> (r: bool) {
        matches!(self, JsonPathQueryNode::Child(_, _))
    }

    fn label(&self) -> (r: Option<&Label>) {
        match self {
            JsonPathQueryNode::Child(label, _) => Some(label),
            JsonPathQueryNode::Descendant(label, _) => Some(label),
            _ => None,
        }
    }
}

impl<'a> JsonPathQueryNodeType for Option<&'a JsonPathQueryNode> {
    open spec fn step(&self) -> Option<JsonPathQueryNode> {
        match self {
            Some(n) => Some(**n),
            None => None,
        }
    }

    fn is_root(&self) -> (r: bool) {
        match self {
            Some(n) => n.is_root(),
            None => false,
        }
    }

    fn is_descendant(&self) -> (r: bool) {
        match self {
            Some(n) => n.is_descendant(),
            None => false,
        }
    }

    fn is_child(&self) -> (r: bool) {
        match self {
            Some(n) => n.is_child(),
            None => false,
        }
    }

    fn label(&self) -> (r: Option<&Label>) {
        match self {
            Some(n) => n.label(),
            None => None,
        }
    }
}

/// A query: a chain of steps that starts at the root.
pub struct JsonPathQuery {
    root: Box<JsonPathQueryNode>,
}

impl JsonPathQuery {
    /// A query always starts at the root step.
    #[verifier::type_invariant]
    spec fn starts_at_root(&self) -> bool {
        *self.root is Root
    }

    /// The first step of the chain.
    pub closed spec fn spec_root(&self) -> JsonPathQueryNode {
        *self.root
    }

    /// The root step.
    pub fn root(&self) -> (r: &JsonPathQueryNode)
        ensures
            *r == self.spec_root(),
            r is Root,
    {
        proof {
            use_type_invariant(self);
        }
        &self.root
    }

    /// A query from a chain of steps; a chain that does not start at the root is put
    /// under a root step.
    pub fn new(node: Box<JsonPathQueryNode>) -> (r: JsonPathQuery)
        ensures
            r.spec_root() is Root,
            *node is Root ==> r.spec_root() == *node,
            !(*node is Root) ==> r.spec_root() == JsonPathQueryNode::Root(Some(node)),
    {
        let root = if node.is_root() {
            node
        } else {
            Box::new(JsonPathQueryNode::Root(Some(node)))
        };
        JsonPathQuery { root }
    }

    /// The query text: `$` followed by `.['name']` or `..['name']` for each later step.
    pub fn to_query_string(&self) -> (r: String)
        ensures
            r@ == render(self.spec_root()),
            r@.len() > 0 && r@[0] == '$',
    {
        proof {
            use_type_invariant(self);
        }
        self.root.to_query_string()
    }
}

} // verus!
