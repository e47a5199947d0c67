//! A doubly linked list, and the node it is made of.

use std::fmt::Display;
use vstd::prelude::*;
use vstd::string::to_string_from_display_ensures;
use vstd::string::StringExecFns;
use vstd::std_specs::cmp::{PartialEqSpec, PartialEqSpecImpl};
use crate::text::{decimal, push_decimal, push_str, string_of};
use crate::trusted::{regex_replace_all, regex_replaced};

verus! {

/// A node: a value, and the nodes next to it. A node owns its neighbours;
/// what a neighbour holds as its way back is a copy of the node's value,
/// in a node without neighbours.
pub struct ListNode<T> where T: Copy + Display {
    pub value: T,
    next: Option<Box<ListNode<T>>>,
    previous: Option<Box<ListNode<T>>>,
}

impl<T> ListNode<T> where T: Copy + Display {
    /// The value of the node.
    pub closed spec fn content(self) -> T {
        self.value
    }

    /// The node behind this one.
    pub closed spec fn next_node(self) -> Option<ListNode<T>> {
        match self.next {
            Some(node) => Some(*node),
            None => None,
        }
    }

    /// The node before this one.
    pub closed spec fn previous_node(self) -> Option<ListNode<T>> {
        match self.previous {
            Some(node) => Some(*node),
            None => None,
        }
    }

    /// The node that holds `value` and has no neighbours.
    pub closed spec fn leaf(value: T) -> ListNode<T> {
        ListNode { value, next: None, previous: None }
    }

    /// A node is its value and its two neighbours, and a leaf has none.
    pub proof fn law_node_is_its_parts(a: ListNode<T>, b: ListNode<T>, value: T)
        ensures
            Self::leaf(value).content() == value,
            Self::leaf(value).next_node() is None,
            Self::leaf(value).previous_node() is None,
            a.content() == b.content() && a.next_node() == b.next_node() && a.previous_node()
                == b.previous_node() ==> a == b,
    {
        if a.content() == b.content() && a.next_node() == b.next_node() && a.previous_node()
            == b.previous_node() {
            assert(a.next == b.next);
            assert(a.previous == b.previous);
        }
    }

    /// The neighbour as the node made it: with its own value and its other
    /// neighbour, and with a leaf of `value` as its way back.
    pub open spec fn linked_behind(given: Option<ListNode<T>>, value: T, made: Option<
        ListNode<T>,
    >) -> bool {
        match given {
            Some(node) => made is Some && made->0.content() == node.content()
                && made->0.next_node() == node.next_node() && made->0.previous_node() == Some(
                Self::leaf(value),
            ),
            None => made is None,
        }
    }

    /// As `linked_behind`, for the neighbour before the node.
    pub open spec fn linked_before(given: Option<ListNode<T>>, value: T, made: Option<
        ListNode<T>,
    >) -> bool {
        match given {
            Some(node) => made is Some && made->0.content() == node.content()
                && made->0.previous_node() == node.previous_node() && made->0.next_node() == Some(
                Self::leaf(value),
            ),
            None => made is None,
        }
    }

    /// A node of `value` between `previous` and `next`, each of which gets
    /// a copy of the value as its way back.
    pub fn new(value: T, next: Option<ListNode<T>>, previous: Option<ListNode<T>>) -> (r: ListNode<
        T,
    >)
        ensures
            r.content() == value,
            Self::linked_behind(next, value, r.next_node()),
            Self::linked_before(previous, value, r.previous_node()),
    {
        let mut this = ListNode {
            value,
            next: Self::rc_from_node_or_null(next),
            previous: Self::rc_from_node_or_null(previous),
        };
        this.update();
        this
    }

    /// Writes a copy of the value into both neighbours, as their way back.
    fn update(&mut self)
        ensures
            final(self).content() == old(self).content(),
            Self::linked_behind(old(self).next_node(), old(self).content(), final(self).next_node()),
            Self::linked_before(
                old(self).previous_node(),
                old(self).content(),
                final(self).previous_node(),
            ),
    {
        let value = self.value;
        match &mut self.next {
            Some(node) => {
                node.set_previous(ListNode { value, next: None, previous: None });
            },
            None => {},
        }
        match &mut self.previous {
            Some(node) => {
                node.set_next(ListNode { value, next: None, previous: None });
            },
            None => {},
        }
    }

    /// Puts `next` behind the node.
    fn set_next(&mut self, next: ListNode<T>)
        ensures
            final(self).content() == old(self).content(),
            final(self).previous_node() == old(self).previous_node(),
            final(self).next_node() == Some(next),
    {
        self.next = Some(Box::new(next));
    }

    /// Puts `previous` before the node.
    fn set_previous(&mut self, previous: ListNode<T>)
        ensures
            final(self).content() == old(self).content(),
            final(self).next_node() == old(self).next_node(),
            final(self).previous_node() == Some(previous),
    {
        self.previous = Some(Box::new(previous));
    }

    /// The node in a box of its own, where there is one.
    fn rc_from_node_or_null(item: Option<ListNode<T>>) -> (r: Option<Box<ListNode<T>>>)
        ensures
            match item {
                Some(node) => r == Some(Box::new(node)),
                None => r is None,
            },
    {
        match item {
            Some(node) => Some(Box::new(node)),
            None => None,
        }
    }

    /// The text of the value of `node`, or `nil` where there is no node.
    pub fn stringfy(node: Option<&ListNode<T>>) -> (r: String)
        ensures
            match node {
                Some(n) => to_string_from_display_ensures::<T>(&n.content(), r),
                None => r@ == "nil"@,
            },
    {
        match node {
            Some(n) => n.value.to_string(),
            None => "nil".to_owned(),
        }
    }

    /// The text of the value of the node.
    pub fn to_string(&self) -> (r: String)
        ensures
            to_string_from_display_ensures::<T>(&self.content(), r),
    {
        self.value.to_string()
    }

    /// The neighbour behind the node where `next` holds, else the one
    /// before it: to read, or to change in place.
    fn _get(&mut self, next: bool) -> (r: Option<&mut ListNode<T>>)
        ensures
            final(self).content() == old(self).content(),
            next ==> final(self).previous_node() == old(self).previous_node() && match r {
                Some(node) => old(self).next_node() == Some(*node) && final(self).next_node()
                    == Some(*final(node)),
                None => old(self).next_node() is None && final(self).next_node() is None,
            },
            !next ==> final(self).next_node() == old(self).next_node() && match r {
                Some(node) => old(self).previous_node() == Some(*node) && final(self).previous_node() == Some(*final(node)),
                None => old(self).previous_node() is None && final(self).previous_node()
                    is None,
            },
    {
        if next {
            match &mut self.next {
                Some(node) => Some(&mut **node),
                None => None,
            }
        } else {
            match &mut self.previous {
                Some(node) => Some(&mut **node),
                None => None,
            }
        }
    }

    /// The node behind this one: to read, or to change in place.
    pub fn get_next(&mut self) -> (r: Option<&mut ListNode<T>>)
        ensures
            final(self).content() == old(self).content(),
            final(self).previous_node() == old(self).previous_node(),
            match r {
                Some(node) => old(self).next_node() == Some(*node) && final(self).next_node()
                    == Some(*final(node)),
                None => old(self).next_node() is None && final(self).next_node() is None,
            },
    {
        self._get(true)
    }

    /// The node before this one: to read, or to change in place.
    pub fn get_previous(&mut self) -> (r: Option<&mut ListNode<T>>)
        ensures
            final(self).content() == old(self).content(),
            final(self).next_node() == old(self).next_node(),
            match r {
                Some(node) => old(self).previous_node() == Some(*node) && final(self).previous_node() == Some(*final(node)),
                None => old(self).previous_node() is None && final(self).previous_node()
                    is None,
            },
    {
        self._get(false)
    }

    /// Writes `value` into the node.
    pub fn set(&mut self, value: T)
        ensures
            final(self).content() == value,
            final(self).next_node() == old(self).next_node(),
            final(self).previous_node() == old(self).previous_node(),
    {
        self.value = value;
    }

    /// The value of the node.
    pub fn get(&mut self) -> (r: T)
        ensures
            r == old(self).content(),
            *final(self) == *old(self),
    {
        self.value
    }
}

/// Two nodes are equal when their values are, whatever stands next to
/// them.
impl<T> PartialEq for ListNode<T> where T: Copy + Display + PartialEq {
    fn eq(&self, other: &ListNode<T>) -> (r: bool) {
        self.value == other.value
    }
}

impl<T> PartialEqSpecImpl for ListNode<T> where T: Copy + Display + PartialEq {
    open spec fn obeys_eq_spec() -> bool {
        T::obeys_eq_spec()
    }

    open spec fn eq_spec(&self, other: &ListNode<T>) -> bool {
        self.content().eq_spec(&other.content())
    }
}

/// A list of values in the order in which they were pushed. Its nodes
/// stand in a row, and each holds copies of the values next to it.
pub struct List<T> where T: Copy + Display + PartialEq {
    nodes: Vec<ListNode<T>>,
}

/// What the nodes of a list show of entry `i`, given the text of each
/// value: a line break and a tab, the place, a colon and a space, the
/// text between double quotes, and a comma.
pub open spec fn entry_text(i: nat, text: Seq<char>) -> Seq<char> {
    "\n\t"@ + decimal(i as int) + ": \""@ + text + "\","@
}

/// The opening bracket and the first `n` entries of a list.
pub open spec fn entries_text(texts: Seq<Seq<char>>, n: nat) -> Seq<char>
    decreases n,
{
    if n == 0 {
        "\n["@
    } else {
        entries_text(texts, (n - 1) as nat) + entry_text((n - 1) as nat, texts[n - 1])
    }
}

/// The pattern of a comma at the end of a text.
pub open spec fn last_comma() -> Seq<char> {
    ",$"@
}

/// The end of a listing: `stripped`, which is what became of `body`
/// without its last comma, or `body` itself where there is no such text,
/// and then a line break and the closing bracket.
pub open spec fn closed_text(body: Seq<char>, stripped: Option<Seq<char>>) -> Seq<char> {
    match stripped {
        Some(text) => text + "\n]"@,
        None => body + "\n]"@,
    }
}

/// The characters of each text.
pub open spec fn shown(texts: Seq<String>) -> Seq<Seq<char>> {
    Seq::new(texts.len(), |i: int| texts[i]@)
}

/// A list as text, given the text of each of its values: the entries
/// between brackets, the comma behind the last entry taken away.
pub open spec fn listing_text(texts: Seq<Seq<char>>) -> Seq<char> {
    let body = entries_text(texts, texts.len());
    closed_text(body, regex_replaced(last_comma(), body, Seq::empty()))
}

impl<T> View for List<T> where T: Copy + Display + PartialEq {
    type V = Seq<T>;

    closed spec fn view(&self) -> Seq<T> {
        Seq::new(self.nodes@.len(), |i: int| self.nodes@[i].content())
    }
}

impl<T> List<T> where T: Copy + Display + PartialEq {
    /// Every node holds, as its neighbours, leaves of the values next to
    /// its own, and the nodes at the ends have one neighbour less.
    pub closed spec fn wf(&self) -> bool {
        forall|i: int|
            0 <= i < self.nodes@.len() ==> {
                &&& (#[trigger] self.nodes@[i]).next_node() == if i + 1 < self.nodes@.len() {
                    Some(ListNode::leaf(self.nodes@[i + 1].content()))
                } else {
                    None
                }
                &&& self.nodes@[i].previous_node() == if i > 0 {
                    Some(ListNode::leaf(self.nodes@[i - 1].content()))
                } else {
                    None
                }
            }
    }

    /// A list without values.
    pub fn new() -> (r: List<T>)
        ensures
            r@ == Seq::<T>::empty(),
            r.wf(),
    {
        let r = List { nodes: Vec::new() };
        proof {
            assert(r@ =~= Seq::<T>::empty());
        }
        r
    }

    /// The number of values.
    pub fn len(&self) -> (r: usize)
        ensures
            r == self@.len(),
    {
        self.nodes.len()
    }

    /// The value in place `i`.
    pub fn get(&self, i: usize) -> (r: Option<T>)
        ensures
            r == if i < self@.len() {
                Some(self@[i as int])
            } else {
                None
            },
    {
        if i < self.nodes.len() {
            Some(self.nodes[i].value)
        } else {
            None
        }
    }

    /// Puts `elem` behind the values that are there.
    pub fn push(&mut self, elem: T)
        ensures
            final(self)@ == old(self)@.push(elem),
            old(self).wf() ==> final(self).wf(),
    {
        let ghost before = self.nodes@;
        let mut node = ListNode::new(elem, None, None);
        match self.nodes.pop() {
            Some(last) => {
                let mut last = last;
                node.set_previous(ListNode { value: last.value, next: None, previous: None });
                last.set_next(ListNode { value: elem, next: None, previous: None });
                self.nodes.push(last);
                self.nodes.push(node);
                proof {
                    let n = before.len() as int;
                    assert(self.nodes@.len() == n + 1);
                    assert forall|i: int| 0 <= i < n - 1 implies self.nodes@[i] == before[i] by {}
                    assert(self.nodes@[n - 1].content() == before[n - 1].content());
                    assert(self@ =~= old(self)@.push(elem));
                    if old(self).wf() {
                        assert forall|i: int| 0 <= i < self.nodes@.len() implies {
                            &&& (#[trigger] self.nodes@[i]).next_node() == if i + 1
                                < self.nodes@.len() {
                                Some(ListNode::leaf(self.nodes@[i + 1].content()))
                            } else {
                                None
                            }
                            &&& self.nodes@[i].previous_node() == if i > 0 {
                                Some(ListNode::leaf(self.nodes@[i - 1].content()))
                            } else {
                                None
                            }
                        } by {
                            if i < n - 1 {
                                assert(self.nodes@[i] == before[i]);
                                assert(before[i].next_node() == if i + 1 < n {
                                    Some(ListNode::leaf(before[i + 1].content()))
                                } else {
                                    None
                                });
                            } else if i == n - 1 {
                                assert(before[i].previous_node() == if i > 0 {
                                    Some(ListNode::leaf(before[i - 1].content()))
                                } else {
                                    None
                                });
                            }
                        }
                    }
                }
            },
            None => {
                self.nodes.push(node);
                proof {
                    assert(self@ =~= old(self)@.push(elem));
                }
            },
        }
    }

    /// Ends a listing: `stripped` is what became of `body` without its
    /// last comma, if anything did.
    pub fn close_listing(body: String, stripped: Option<String>) -> (r: String)
        ensures
            r@ == closed_text(
                body@,
                match stripped {
                    Some(text) => Some(text@),
                    None => None,
                },
            ),
    {
        let mut out = match stripped {
            Some(text) => text,
            None => body,
        };
        out.append("\n]");
        out
    }

    /// The listing of the values whose texts are `texts`.
    pub fn listing(texts: &Vec<String>) -> (r: String)
        ensures
            r@ == listing_text(texts.deep_view()),
    {
        let mut body: Vec<char> = Vec::new();
        push_str(&mut body, "\n[");
        let mut step: usize = 0;
        while step < texts.len()
            invariant
                step <= texts.len(),
                body@ == entries_text(texts.deep_view(), step as nat),
            decreases texts.len() - step,
        {
            push_str(&mut body, "\n\t");
            push_decimal(&mut body, step as i128);
            push_str(&mut body, ": \"");
            push_str(&mut body, texts[step].as_str());
            push_str(&mut body, "\",");
            proof {
                assert(body@ =~= entries_text(texts.deep_view(), step as nat) + entry_text(
                    step as nat,
                    texts.deep_view()[step as int],
                ));
            }
            step = step + 1;
        }
        let result = string_of(&body);
        let stripped = regex_replace_all(",$", result.as_str(), "");
        proof {
            reveal_strlit("");
            assert(""@ =~= Seq::<char>::empty());
        }
        Self::close_listing(result, stripped)
    }

    /// The list as text: each value by its own text.
    pub fn to_string(&self) -> (r: String)
        ensures
            exists|texts: Seq<String>|
                {
                    &&& texts.len() == self@.len()
                    &&& forall|i: int|
                        0 <= i < texts.len() ==> to_string_from_display_ensures::<T>(
                            &self@[i],
                            #[trigger] texts[i],
                        )
                    &&& r@ == listing_text(#[trigger] shown(texts))
                },
    {
        let mut texts: Vec<String> = Vec::new();
        let mut step: usize = 0;
        while step < self.nodes.len()
            invariant
                step <= self.nodes.len(),
                texts.len() == step,
                forall|i: int|
                    0 <= i < step ==> to_string_from_display_ensures::<T>(
                        &self@[i],
                        #[trigger] texts@[i],
                    ),
            decreases self.nodes.len() - step,
        {
            texts.push(self.nodes[step].to_string());
            step = step + 1;
        }
        proof {
            assert(texts.deep_view() =~= shown(texts@));
        }
        Self::listing(&texts)
    }
}

} // verus!
