//! Pipelines as data: which elements to make, how to set them up, and how to
//! link them.
use vstd::prelude::*;

verus! {

/// The value of an element's property, in the type that the element expects.
#[derive(Debug, Clone, PartialEq, Eq)]
pub enum Setting {
    Flag(bool),
    U32(u32),
    U64(u64),
    I32(i32),
    /// A single-precision number, by its bits.
    Single(u32),
    /// A double-precision number, by its bits.
    Double(u64),
    Text(String),
    /// The nickname of an enumeration's value.
    Nick(String),
    /// Capabilities, as text.
    Caps(String),
}

/// A property's value as contracts speak of it.
pub enum Val {
    Flag(bool),
    U32(u32),
    U64(u64),
    I32(i32),
    Single(u32),
    Double(u64),
    Text(Seq<char>),
    Nick(Seq<char>),
    Caps(Seq<char>),
}

impl View for Setting {
    type V = Val;

    open spec fn view(&self) -> Val {
        match *self {
            Setting::Flag(b) => Val::Flag(b),
            Setting::U32(n) => Val::U32(n),
            Setting::U64(n) => Val::U64(n),
            Setting::I32(n) => Val::I32(n),
            Setting::Single(bits) => Val::Single(bits),
            Setting::Double(bits) => Val::Double(bits),
            Setting::Text(s) => Val::Text(s@),
            Setting::Nick(s) => Val::Nick(s@),
            Setting::Caps(s) => Val::Caps(s@),
        }
    }
}

impl Setting {
    pub fn text(s: &str) -> (r: Setting)
        ensures
            r@ == Val::Text(s@),
    {
        Setting::Text(s.to_owned())
    }

    pub fn nick(s: &str) -> (r: Setting)
        ensures
            r@ == Val::Nick(s@),
    {
        Setting::Nick(s.to_owned())
    }

    pub fn caps(s: &str) -> (r: Setting)
        ensures
            r@ == Val::Caps(s@),
    {
        Setting::Caps(s.to_owned())
    }
}

/// A property and its value.
#[derive(Debug, Clone, PartialEq, Eq)]
pub struct Property {
    pub name: String,
    pub value: Setting,
}

/// A property as contracts speak of it.
pub struct Prop {
    pub name: Seq<char>,
    pub value: Val,
}

impl View for Property {
    type V = Prop;

    open spec fn view(&self) -> Prop {
        Prop { name: self.name@, value: self.value@ }
    }
}

/// One way to make an element: a factory and the properties to set, in order.
#[derive(Debug, Clone, PartialEq, Eq)]
pub struct Candidate {
    pub factory: String,
    pub properties: Vec<Property>,
}

/// A candidate as contracts speak of it.
pub struct Make {
    pub factory: Seq<char>,
    pub properties: Seq<Prop>,
}

impl View for Candidate {
    type V = Make;

    open spec fn view(&self) -> Make {
        Make {
            factory: self.factory@,
            properties: Seq::new(self.properties@.len(), |i: int| self.properties@[i]@),
        }
    }
}

impl Make {
    /// With one more property.
    pub open spec fn with(self, name: Seq<char>, value: Val) -> Make {
        Make { factory: self.factory, properties: self.properties.push(Prop { name, value }) }
    }

    /// The value that a property is set to, the last one if set twice.
    pub open spec fn get(self, name: Seq<char>) -> Option<Val>
        decreases self.properties.len(),
    {
        if self.properties.len() == 0 {
            None
        } else if self.properties.last().name == name {
            Some(self.properties.last().value)
        } else {
            (Make { factory: self.factory, properties: self.properties.drop_last() }).get(name)
        }
    }
}

/// A factory with every property at its default.
pub open spec fn bare(factory: Seq<char>) -> Make {
    Make { factory, properties: Seq::empty() }
}

impl Candidate {
    pub fn new(factory: &str) -> (c: Candidate)
        ensures
            c@ == bare(factory@),
    {
        let c: Candidate = Candidate { factory: factory.to_owned(), properties: Vec::new() };
        assert(c@.properties =~= Seq::empty());
        c
    }

    pub fn with(self, name: &str, value: Setting) -> (c: Candidate)
        ensures
            c@ == self@.with(name@, value@),
    {
        let mut properties: Vec<Property> = self.properties;
        properties.push(Property { name: name.to_owned(), value });
        let c: Candidate = Candidate { factory: self.factory, properties };
        assert(c@.properties =~= self@.with(name@, value@).properties);
        c
    }

    pub fn flag(self, name: &str, value: bool) -> (c: Candidate)
        ensures
            c@ == self@.with(name@, Val::Flag(value)),
    {
        self.with(name, Setting::Flag(value))
    }

    pub fn u32(self, name: &str, value: u32) -> (c: Candidate)
        ensures
            c@ == self@.with(name@, Val::U32(value)),
    {
        self.with(name, Setting::U32(value))
    }

    pub fn u64(self, name: &str, value: u64) -> (c: Candidate)
        ensures
            c@ == self@.with(name@, Val::U64(value)),
    {
        self.with(name, Setting::U64(value))
    }

    pub fn i32(self, name: &str, value: i32) -> (c: Candidate)
        ensures
            c@ == self@.with(name@, Val::I32(value)),
    {
        self.with(name, Setting::I32(value))
    }

    pub fn text(self, name: &str, value: &str) -> (c: Candidate)
        ensures
            c@ == self@.with(name@, Val::Text(value@)),
    {
        self.with(name, Setting::text(value))
    }

    pub fn nick(self, name: &str, value: &str) -> (c: Candidate)
        ensures
            c@ == self@.with(name@, Val::Nick(value@)),
    {
        self.with(name, Setting::nick(value))
    }

    pub fn caps(self, value: &str) -> (c: Candidate)
        ensures
            c@ == self@.with("caps"@, Val::Caps(value@)),
    {
        self.with("caps", Setting::caps(value))
    }
}

/// An element of a pipeline. It is made from the first candidate whose factory
/// can make one.
#[derive(Debug, Clone, PartialEq, Eq)]
pub struct Element {
    pub name: String,
    pub candidates: Vec<Candidate>,
}

/// An element as contracts speak of it.
pub struct Node {
    pub name: Seq<char>,
    pub candidates: Seq<Make>,
}

impl View for Element {
    type V = Node;

    open spec fn view(&self) -> Node {
        Node {
            name: self.name@,
            candidates: Seq::new(self.candidates@.len(), |i: int| self.candidates@[i]@),
        }
    }
}

impl Node {
    /// With one more candidate, after the others.
    pub open spec fn or(self, other: Make) -> Node {
        Node { name: self.name, candidates: self.candidates.push(other) }
    }
}

/// An element with one candidate.
pub open spec fn named(name: Seq<char>, make: Make) -> Node {
    Node { name, candidates: seq![make] }
}

impl Element {
    pub fn new(name: &str, candidate: Candidate) -> (e: Element)
        ensures
            e@ == named(name@, candidate@),
    {
        let mut candidates: Vec<Candidate> = Vec::new();
        candidates.push(candidate);
        let e: Element = Element { name: name.to_owned(), candidates };
        assert(e@.candidates =~= seq![candidate@]);
        e
    }

    pub fn or(self, other: Candidate) -> (e: Element)
        ensures
            e@ == self@.or(other@),
    {
        let mut candidates: Vec<Candidate> = self.candidates;
        candidates.push(other);
        let e: Element = Element { name: self.name, candidates };
        assert(e@.candidates =~= self@.or(other@).candidates);
        e
    }
}

/// A link from one element to another, by their places in the pipeline. A pad
/// that has to be requested from the receiving element is named.
#[derive(Debug, Clone, PartialEq, Eq)]
pub struct Link {
    pub from: usize,
    pub to: usize,
    pub pad: Option<String>,
}

/// A link as contracts speak of it.
pub struct Edge {
    pub from: int,
    pub to: int,
    pub pad: Option<Seq<char>>,
}

impl View for Link {
    type V = Edge;

    open spec fn view(&self) -> Edge {
        Edge {
            from: self.from as int,
            to: self.to as int,
            pad: match self.pad {
                Some(p) => Some(p@),
                None => None,
            },
        }
    }
}

/// A pipeline to build: its elements, in the order they are added, and its
/// links.
#[derive(Debug, Clone, PartialEq, Eq)]
pub struct PipelinePlan {
    pub name: String,
    pub elements: Vec<Element>,
    pub links: Vec<Link>,
}

/// A pipeline plan as contracts speak of it.
pub struct Plan {
    pub name: Seq<char>,
    pub nodes: Seq<Node>,
    pub edges: Seq<Edge>,
}

impl View for PipelinePlan {
    type V = Plan;

    open spec fn view(&self) -> Plan {
        Plan {
            name: self.name@,
            nodes: Seq::new(self.elements@.len(), |i: int| self.elements@[i]@),
            edges: Seq::new(self.links@.len(), |i: int| self.links@[i]@),
        }
    }
}

impl Plan {
    /// With one more element, not linked yet.
    pub open spec fn add(self, node: Node) -> Plan {
        Plan { name: self.name, nodes: self.nodes.push(node), edges: self.edges }
    }

    /// With one more link.
    pub open spec fn link(self, from: int, to: int) -> Plan {
        Plan {
            name: self.name,
            nodes: self.nodes,
            edges: self.edges.push(Edge { from, to, pad: None }),
        }
    }

    /// With one more link, to a requested pad.
    pub open spec fn link_pad(self, from: int, to: int, pad: Seq<char>) -> Plan {
        Plan {
            name: self.name,
            nodes: self.nodes,
            edges: self.edges.push(Edge { from, to, pad: Some(pad) }),
        }
    }

    /// With one more element, linked from the one before it.
    pub open spec fn append(self, node: Node) -> Plan {
        self.add(node).link(self.nodes.len() - 1, self.nodes.len() as int)
    }

    /// Each link joins two different elements of the plan, and no element is
    /// fed twice through one pad.
    pub open spec fn sound(self) -> bool {
        &&& forall|i: int|
            #![trigger self.edges[i]]
            0 <= i < self.edges.len() ==> {
                &&& 0 <= self.edges[i].from < self.nodes.len()
                &&& 0 <= self.edges[i].to < self.nodes.len()
                &&& self.edges[i].from != self.edges[i].to
            }
        &&& forall|i: int, j: int|
            #![trigger self.edges[i], self.edges[j]]
            0 <= i < j < self.edges.len() && self.edges[i].to == self.edges[j].to
                ==> self.edges[i].pad != self.edges[j].pad
    }

    /// Element `n` takes part in some link.
    pub open spec fn links_at(self, n: int) -> bool {
        exists|i: int|
            #![trigger self.edges[i]]
            0 <= i < self.edges.len() && (self.edges[i].from == n || self.edges[i].to == n)
    }

    /// Every element takes part in some link.
    pub open spec fn connected(self) -> bool {
        forall|n: int| 0 <= n < self.nodes.len() ==> #[trigger] self.links_at(n)
    }

    /// Some element is made by `factory` and publishes or reads `channel`.
    pub open spec fn on_channel(self, factory: Seq<char>, channel: Seq<char>) -> bool {
        exists|n: int|
            #![trigger self.nodes[n]]
            0 <= n < self.nodes.len() && self.nodes[n].candidates.len() == 1
                && self.nodes[n].candidates[0].factory == factory
                && self.nodes[n].candidates[0].get("channel"@) == Some(Val::Text(channel))
    }
}

/// A pipeline without elements.
pub open spec fn empty_plan(name: Seq<char>) -> Plan {
    Plan { name, nodes: Seq::empty(), edges: Seq::empty() }
}

impl PipelinePlan {
    pub fn new(name: &str) -> (p: PipelinePlan)
        ensures
            p@ == empty_plan(name@),
    {
        let p: PipelinePlan = PipelinePlan {
            name: name.to_owned(),
            elements: Vec::new(),
            links: Vec::new(),
        };
        assert(p@.nodes =~= Seq::empty());
        assert(p@.edges =~= Seq::empty());
        p
    }

    pub fn add(&mut self, element: Element)
        ensures
            final(self)@ == old(self)@.add(element@),
    {
        self.elements.push(element);
        assert(self@.nodes =~= old(self)@.nodes.push(element@));
        assert(self@.edges =~= old(self)@.edges);
    }

    pub fn link(&mut self, from: usize, to: usize)
        ensures
            final(self)@ == old(self)@.link(from as int, to as int),
    {
        self.links.push(Link { from, to, pad: None });
        assert(self@.nodes =~= old(self)@.nodes);
        assert(self@.edges =~= old(self)@.link(from as int, to as int).edges);
    }

    pub fn link_pad(&mut self, from: usize, to: usize, pad: &str)
        ensures
            final(self)@ == old(self)@.link_pad(from as int, to as int, pad@),
    {
        self.links.push(Link { from, to, pad: Some(pad.to_owned()) });
        assert(self@.nodes =~= old(self)@.nodes);
        assert(self@.edges =~= old(self)@.link_pad(from as int, to as int, pad@).edges);
    }

    pub fn append(&mut self, element: Element)
        requires
            old(self)@.nodes.len() > 0,
        ensures
            final(self)@ == old(self)@.append(element@),
    {
        let n: usize = self.elements.len();
        self.add(element);
        self.link(n - 1, n);
    }

    /// Where the element of a name stands.
    pub fn find(&self, name: &str) -> (r: Option<usize>)
        ensures
            match r {
                Some(n) => n < self@.nodes.len() && self@.nodes[n as int].name == name@
                    && forall|i: int| 0 <= i < n ==> #[trigger] self@.nodes[i].name != name@,
                None => forall|i: int|
                    0 <= i < self@.nodes.len() ==> #[trigger] self@.nodes[i].name != name@,
            },
    {
        let mut n: usize = 0;
        while n < self.elements.len()
            invariant
                n <= self.elements@.len(),
                forall|i: int| 0 <= i < n ==> #[trigger] self@.nodes[i].name != name@,
            decreases self.elements@.len() - n,
        {
            if crate::text::same_text(self.elements[n].name.as_str(), name) {
                return Some(n);
            }
            n = n + 1;
        }
        None
    }
}

} // verus!
