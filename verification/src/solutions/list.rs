//! A singly linked list of unsigned numbers, built from a range,
//! summable, reversible, and readable back out as a vector.

use vstd::prelude::*;

verus! {

/// A linked list: empty, or a node owning the rest.
pub struct LinkedList(pub Option<Box<Node>>);

/// One node: a value and the rest of the list.
pub struct Node {
    pub first: u64,
    pub rest: LinkedList,
}

impl LinkedList {
    /// The sequence of values the list holds, front first.
    pub open spec fn seq(&self) -> Seq<u64>
        decreases self,
    {
        match self.0 {
            None => Seq::empty(),
            Some(node) => seq![node.first] + node.rest.seq(),
        }
    }

    /// The mathematical sum of the values.
    pub open spec fn spec_sum(&self) -> int
        decreases self,
    {
        match self.0 {
            None => 0,
            Some(node) => node.first + node.rest.spec_sum(),
        }
    }

    /// Builds the list of the numbers of `range`, in order.
    pub fn range(range: core::ops::Range<u64>) -> (r: LinkedList)
        ensures
            r.seq() == Seq::new(
                (if range.start <= range.end {
                    range.end - range.start
                } else {
                    0
                }) as nat,
                |i: int| (range.start + i) as u64,
            ),
    {
        let start = range.start;
        let end = range.end;
        let ghost n: int = if start <= end {
            end - start
        } else {
            0
        };
        let ghost target = Seq::new(n as nat, |i: int| (start + i) as u64);
        let mut this = LinkedList(None);
        let mut value = end;
        proof {
            assert(this.seq() =~= target.skip(n));
        }
        while value > start
            invariant
                start <= value <= end || (value == end && end < start),
                n == (if start <= end {
                    end - start
                } else {
                    0
                }),
                target == Seq::new(n as nat, |i: int| (start + i) as u64),
                value > start ==> start <= value <= end,
                this.seq() =~= target.skip(
                    if start <= end {
                        value - start
                    } else {
                        0
                    },
                ),
            decreases value,
        {
            value = value - 1;
            let node = Node { first: value, rest: this };
            this = LinkedList(Some(Box::new(node)));
            proof {
                let k = value - start;
                assert(target[k] == value);
                assert(target.skip(k) =~= seq![target[k]] + target.skip(k + 1));
            }
        }
        proof {
            assert(target.skip(0) =~= target);
            if start > end {
                assert(target =~= Seq::<u64>::empty());
            }
        }
        this
    }

    /// Sums the values; the total must fit the machine word.
    pub fn sum(&self) -> (r: u64)
        requires
            0 <= self.spec_sum() <= u64::MAX,
        ensures
            r as int == self.spec_sum(),
        decreases self,
    {
        match &self.0 {
            None => 0,
            Some(node) => {
                proof {
                    lemma_sum_nonneg(&node.rest);
                }
                node.first + node.rest.sum()
            },
        }
    }

    /// Reads the values out into a vector, front first.
    pub fn to_vec(&self) -> (r: Vec<u64>)
        ensures
            r@ == self.seq(),
    {
        let mut out: Vec<u64> = Vec::new();
        let mut cur: &LinkedList = self;
        proof {
            assert(self.seq() =~= out@ + cur.seq());
        }
        loop
            invariant
                self.seq() =~= out@ + cur.seq(),
            decreases cur,
        {
            match &cur.0 {
                None => {
                    proof {
                        assert(out@ =~= out@ + Seq::<u64>::empty());
                    }
                    return out;
                },
                Some(node) => {
                    out.push(node.first);
                    proof {
                        assert(out@ + node.rest.seq() =~= self.seq());
                    }
                    cur = &node.rest;
                },
            }
        }
    }

    /// Reverses the list in place.
    pub fn reverse(&mut self)
        ensures
            final(self).seq() == old(self).seq().reverse(),
    {
        let head = self.0.take();
        let r = LinkedList::reverse_help(LinkedList(None), LinkedList(head));
        proof {
            assert(old(self).seq().reverse() + Seq::<u64>::empty() =~= old(self).seq().reverse());
        }
        *self = r;
    }

    /// Moves the nodes of `right` onto the front of `left`, one at a
    /// time: the result is `right` reversed, followed by `left`.
    pub fn reverse_help(left: LinkedList, right: LinkedList) -> (r: LinkedList)
        ensures
            r.seq() == right.seq().reverse() + left.seq(),
        decreases right,
    {
        match right.0 {
            None => {
                proof {
                    assert(Seq::<u64>::empty().reverse() =~= Seq::<u64>::empty());
                    assert(Seq::<u64>::empty() + left.seq() =~= left.seq());
                }
                left
            },
            Some(node) => {
                let node = *node;
                let rest = node.rest;
                let new_left = LinkedList(
                    Some(Box::new(Node { first: node.first, rest: left })),
                );
                let ghost gl = new_left.seq();
                let r = LinkedList::reverse_help(new_left, rest);
                proof {
                    assert(right.seq() =~= seq![node.first] + rest.seq());
                    assert(right.seq().reverse() =~= rest.seq().reverse() + seq![node.first]);
                    assert(gl =~= seq![node.first] + left.seq());
                    assert(rest.seq().reverse() + (seq![node.first] + left.seq())
                        =~= (rest.seq().reverse() + seq![node.first]) + left.seq());
                }
                r
            },
        }
    }
}

impl Default for LinkedList {
    /// The empty list.
    fn default() -> (r: Self)
        ensures
            r.seq() == Seq::<u64>::empty(),
    {
        LinkedList(None)
    }
}

proof fn lemma_sum_nonneg(l: &LinkedList)
    ensures
        l.spec_sum() >= 0,
    decreases l,
{
    match l.0 {
        None => {},
        Some(node) => {
            lemma_sum_nonneg(&node.rest);
        },
    }
}

} // verus!
