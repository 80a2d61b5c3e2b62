//! The cells of the Seax virtual machine: atoms, instructions and lists of
//! cells.
use vstd::prelude::*;
use crate::list::{lemma_view_determines_list, List};
use crate::text::{fragments, Fragment, Piece};

pub mod atom;
pub mod float;
pub mod inst;

pub use self::atom::{Arith, ArithOp, Atom, BitOp, Fault, FloatOperand, Kind};
pub use self::inst::Inst;

verus! {

/// A cell: the one type of value that the machine handles.
#[derive(Debug, PartialEq)]
pub enum SVMCell {
    /// An atom.
    AtomCell(Atom),
    /// A list of cells. The cell owns the list.
    ListCell(Box<List<SVMCell>>),
    /// An instruction.
    InstCell(Inst),
}

/// The two ways to show a cell.
#[derive(Clone, Copy, Debug, PartialEq, Eq, Structural)]
pub enum Style {
    /// For the user of a program.
    Display,
    /// For someone who must tell the kinds of atom apart.
    Debug,
}

/// What stands between two items of a list that is shown.
pub open spec fn separator() -> Fragment {
    Fragment::Text(seq![',', ' '])
}

impl SVMCell {
    /// The cell as it is shown: an atom as the atom is shown in that style,
    /// an instruction by its name, a list as its items between parentheses,
    /// with a comma and a space between neighbours.
    pub open spec fn shown(self, style: Style) -> Seq<Fragment>
        decreases self, 0nat,
    {
        match self {
            SVMCell::AtomCell(atom) => match style {
                Style::Display => atom.spec_display(),
                Style::Debug => atom.spec_debug(),
            },
            SVMCell::ListCell(list) => seq![Fragment::Text(seq!['('])] + Self::shown_items(
                *list,
                style,
            ) + seq![Fragment::Text(seq![')'])],
            SVMCell::InstCell(inst) => seq![Fragment::Text(inst.spec_name())],
        }
    }

    /// The items of a list as they are shown, with the separator between
    /// neighbours.
    pub open spec fn shown_items(list: List<SVMCell>, style: Style) -> Seq<Fragment>
        decreases list, 0nat,
    {
        match list {
            List::Cons(head, tail) => head.shown(style) + Self::shown_more(*tail, style),
            List::Nil => Seq::empty(),
        }
    }

    /// The items of a list that follows an item that was shown: nothing for
    /// the empty list, else the separator and the items.
    pub open spec fn shown_more(list: List<SVMCell>, style: Style) -> Seq<Fragment>
        decreases list, 1nat,
    {
        match list {
            List::Cons(_, _) => seq![separator()] + Self::shown_items(list, style),
            List::Nil => Seq::empty(),
        }
    }

    /// The cell as it is shown to the user of a program.
    pub fn display(&self) -> (pieces: Vec<Piece>)
        ensures
            fragments(pieces@) == self.shown(Style::Display),
    {
        let mut pieces: Vec<Piece> = Vec::new();
        self.show(Style::Display, &mut pieces);
        proof {
            assert(fragments(Seq::<Piece>::empty()) + self.shown(Style::Display) =~= self.shown(
                Style::Display,
            ));
        }
        pieces
    }

    /// The cell as it is shown to someone who must tell the kinds of atom
    /// apart.
    pub fn debug(&self) -> (pieces: Vec<Piece>)
        ensures
            fragments(pieces@) == self.shown(Style::Debug),
    {
        let mut pieces: Vec<Piece> = Vec::new();
        self.show(Style::Debug, &mut pieces);
        proof {
            assert(fragments(Seq::<Piece>::empty()) + self.shown(Style::Debug) =~= self.shown(
                Style::Debug,
            ));
        }
        pieces
    }

    /// Appends the cell, as it is shown in `style`, to `out`.
    pub fn show(&self, style: Style, out: &mut Vec<Piece>)
        ensures
            fragments(final(out)@) == fragments(old(out)@) + self.shown(style),
        decreases self,
    {
        match self {
            SVMCell::AtomCell(atom) => {
                let mut shown = match style {
                    Style::Display => atom.display(),
                    Style::Debug => atom.debug(),
                };
                proof {
                    assert(fragments(out@ + shown@) =~= fragments(out@) + fragments(shown@));
                }
                out.append(&mut shown);
            },
            SVMCell::ListCell(list) => {
                out.push(Piece::Text("(".to_owned()));
                proof {
                    reveal_strlit("(");
                    assert("("@ =~= seq!['(']);
                    assert(fragments(out@) =~= fragments(old(out)@) + seq![
                        Fragment::Text(seq!['(']),
                    ]);
                }
                let ghost opened = fragments(out@);
                let mut first = true;
                let mut rest: &List<SVMCell> = &**list;
                loop
                    invariant
                        **list == *rest || decreases_to!(**list => *rest),
                        self == SVMCell::ListCell(*list),
                        fragments(out@) + (if first {
                            Self::shown_items(*rest, style)
                        } else {
                            Self::shown_more(*rest, style)
                        }) == opened + Self::shown_items(**list, style),
                    ensures
                        fragments(out@) == opened + Self::shown_items(**list, style),
                    decreases rest@.len(),
                {
                    match rest {
                        List::Cons(head, tail) => {
                            let ghost before = fragments(out@);
                            if !first {
                                out.push(Piece::Text(", ".to_owned()));
                                proof {
                                    reveal_strlit(", ");
                                    assert(", "@ =~= seq![',', ' ']);
                                    assert(fragments(out@) =~= before + seq![separator()]);
                                }
                            }
                            let ghost middle = fragments(out@);
                            proof {
                                assert(decreases_to!(*self => *(self->ListCell_0)));
                                assert(decreases_to!(*rest => rest->Cons_0));
                                assert(decreases_to!(*rest => *(rest->Cons_1)));
                            }
                            head.show(style, out);
                            proof {
                                let more = Self::shown_more(**tail, style);
                                let item = head.shown(style);
                                if first {
                                    assert(middle + item + more =~= before + (item + more));
                                } else {
                                    assert(middle + item + more =~= before + (seq![
                                        separator(),
                                    ] + (item + more)));
                                }
                            }
                            first = false;
                            rest = &**tail;
                        },
                        List::Nil => {
                            proof {
                                assert(fragments(out@) + Seq::<Fragment>::empty() =~= fragments(
                                    out@,
                                ));
                            }
                            break ;
                        },
                    }
                }
                let ghost listed = fragments(out@);
                out.push(Piece::Text(")".to_owned()));
                proof {
                    reveal_strlit(")");
                    assert(")"@ =~= seq![')']);
                    let items = Self::shown_items(**list, style);
                    let opening = seq![Fragment::Text(seq!['('])];
                    let closing = seq![Fragment::Text(seq![')'])];
                    assert(fragments(out@) =~= listed + closing);
                    assert(listed == fragments(old(out)@) + opening + items);
                    assert(fragments(old(out)@) + opening + items + closing =~= fragments(
                        old(out)@,
                    ) + (opening + items + closing));
                }
            },
            SVMCell::InstCell(inst) => {
                out.push(Piece::Text(inst.name().to_owned()));
                proof {
                    assert(fragments(out@) =~= fragments(old(out)@) + self.shown(style));
                }
            },
        }
    }
}

impl SVMCell {
    /// A copy of the cell and of everything it holds.
    pub fn duplicate(&self) -> (copy: Self)
        ensures
            copy == *self,
        decreases self,
    {
        match self {
            SVMCell::AtomCell(atom) => SVMCell::AtomCell(*atom),
            SVMCell::InstCell(inst) => SVMCell::InstCell(*inst),
            SVMCell::ListCell(list) => {
                let mut copies: Vec<SVMCell> = Vec::new();
                let mut rest: &List<SVMCell> = &**list;
                loop
                    invariant
                        **list == *rest || decreases_to!(**list => *rest),
                        self == SVMCell::ListCell(*list),
                        copies@ + rest@ == list@,
                    ensures
                        copies@ == list@,
                    decreases rest@.len(),
                {
                    match rest {
                        List::Cons(head, tail) => {
                            proof {
                                assert(decreases_to!(*self => *(self->ListCell_0)));
                                assert(decreases_to!(*rest => rest->Cons_0));
                                assert(decreases_to!(*rest => *(rest->Cons_1)));
                                assert(copies@.push(*head) + tail.elements() =~= copies@ + rest@);
                            }
                            copies.push(head.duplicate());
                            rest = &**tail;
                        },
                        List::Nil => {
                            proof {
                                assert(copies@ + rest@ =~= copies@);
                            }
                            break ;
                        },
                    }
                }
                let copied = List::from_vec(copies);
                proof {
                    lemma_view_determines_list(copied, **list);
                }
                SVMCell::ListCell(Box::new(copied))
            },
        }
    }
}

impl Clone for SVMCell {
    /// A copy of the cell and of everything it holds.
    fn clone(&self) -> (copy: Self)
        ensures
            copy == *self,
    {
        self.duplicate()
    }
}

} // verus!
