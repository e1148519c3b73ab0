//! Color representations and the associated iterators: a 24-bit color
//! flattened into a lazy sequence of booleans, channel by channel in the
//! order a [`ColorOrder`] policy dictates, each channel MSB first.

use core::marker::PhantomData;
use vstd::prelude::*;

use crate::bits::{byte_bits, lemma_bits_of_len, U8Iterator};

verus! {

/// 24-bit representation of red, green, and blue color components.
pub struct Color {
    pub green: u8,
    pub red: u8,
    pub blue: u8,
}

/// Definition of red, green, and blue components.
/// For use in [`ColorOrder`] implementations.
#[derive(Clone, Copy)]
pub enum Component {
    Red,
    Green,
    Blue,
}

impl Component {
    /// The byte of `color` that this component names.
    pub open spec fn select_spec(self, color: Color) -> u8 {
        match self {
            Component::Green => color.green,
            Component::Red => color.red,
            Component::Blue => color.blue,
        }
    }

    fn select_from(&self, color: &Color) -> (r: u8)
        ensures
            r == self.select_spec(*color),
    {
        match self {
            Component::Green => color.green,
            Component::Red => color.red,
            Component::Blue => color.blue,
        }
    }
}

/// Specifies the iteration order of color [`Component`]s.
///
/// An implementation must define a path that visits each of the three
/// components exactly once, starting at `first()` and stepping with `next`
/// until `next` returns `None`; [`policy_wf`] states that requirement.
/// A malformed order (a cycle, a skipped channel) makes the iterator emit
/// the wrong bits; it never makes an operation panic.
pub trait ColorOrder {
    /// The first color component, as a specification value.
    spec fn first_spec() -> Component;

    /// The successor of `current`, as a specification value.
    spec fn next_spec(current: Component) -> Option<Component>;

    /// Returns the first color component.
    fn first() -> (r: Component)
        ensures
            r == Self::first_spec(),
    ;

    /// Returns the next color component, or `None` at the last one.
    fn next(current: &Component) -> (r: Option<Component>)
        ensures
            r == Self::next_spec(*current),
    ;
}

/// The components visited from `c` on, following `Order::next_spec`, cut off
/// after `fuel` steps so that the walk is well-defined even for an order
/// whose steps never reach `None`.
pub open spec fn chain<Order: ColorOrder>(c: Option<Component>, fuel: nat) -> Seq<Component>
    decreases fuel,
{
    match c {
        None => Seq::empty(),
        Some(cur) => if fuel == 0 {
            Seq::empty()
        } else {
            seq![cur] + chain::<Order>(Order::next_spec(cur), (fuel - 1) as nat)
        },
    }
}

/// True when the walk from `c` reaches `None` within `fuel` steps, so that
/// [`chain`] is not cut short by its fuel.
pub open spec fn chain_done<Order: ColorOrder>(c: Option<Component>, fuel: nat) -> bool
    decreases fuel,
{
    match c {
        None => true,
        Some(cur) => fuel > 0 && chain_done::<Order>(Order::next_spec(cur), (fuel - 1) as nat),
    }
}

/// The bits of the given components of `color`, in order, each channel's
/// byte MSB first.
pub open spec fn chain_bits(comps: Seq<Component>, color: Color) -> Seq<bool>
    decreases comps.len(),
{
    if comps.len() == 0 {
        Seq::empty()
    } else {
        byte_bits(comps[0].select_spec(color)) + chain_bits(comps.skip(1), color)
    }
}

/// A well-formed order visits each of the three components exactly once,
/// starting at `first_spec` and ending where `next_spec` returns `None`.
pub open spec fn policy_wf<Order: ColorOrder>() -> bool {
    let comps = chain::<Order>(Some(Order::first_spec()), 3);
    &&& chain_done::<Order>(Some(Order::first_spec()), 3)
    &&& comps.len() == 3
    &&& comps[0] != comps[1]
    &&& comps[0] != comps[2]
    &&& comps[1] != comps[2]
}

/// All 24 bits of `color` in the channel order fixed by `Order`, each
/// channel MSB first.
pub open spec fn color_bits<Order: ColorOrder>(color: Color) -> Seq<bool> {
    chain_bits(chain::<Order>(Some(Order::first_spec()), 3), color)
}

proof fn lemma_chain_fuel<Order: ColorOrder>(c: Option<Component>, f: nat, g: nat)
    requires
        chain_done::<Order>(c, f),
        f <= g,
    ensures
        chain_done::<Order>(c, g),
        chain::<Order>(c, g) == chain::<Order>(c, f),
    decreases f,
{
    match c {
        None => {
            assert(chain::<Order>(c, g) =~= chain::<Order>(c, f));
        },
        Some(cur) => {
            lemma_chain_fuel::<Order>(Order::next_spec(cur), (f - 1) as nat, (g - 1) as nat);
        },
    }
}

proof fn lemma_chain_bits_cons(c: Component, rest: Seq<Component>, color: Color)
    ensures
        chain_bits(seq![c] + rest, color) == byte_bits(c.select_spec(color)) + chain_bits(
            rest,
            color,
        ),
{
    assert((seq![c] + rest).len() == 1 + rest.len());
    assert((seq![c] + rest)[0] == c);
    assert((seq![c] + rest).skip(1) =~= rest);
}

proof fn lemma_add_skip_one<A>(s: Seq<A>, t: Seq<A>)
    requires
        s.len() > 0,
    ensures
        (s + t).skip(1) == s.skip(1) + t,
{
    assert((s + t).skip(1) =~= s.skip(1) + t);
}

/// Iterates color values using the specified [`ColorOrder`] type
/// implementation.
///
/// Its view is the sequence of bits not yet produced.
#[verifier::reject_recursive_types(Order)]
pub struct ColorIterator<Order: ColorOrder> {
    color: Color,
    iter: U8Iterator,
    component: Option<Component>,
    phantom: PhantomData<Order>,
}

impl<Order: ColorOrder> View for ColorIterator<Order> {
    type V = Seq<bool>;

    closed spec fn view(&self) -> Seq<bool> {
        self.iter@ + chain_bits(self.upcoming(), self.color)
    }
}

impl<Order: ColorOrder> ColorIterator<Order> {
    /// The components that remain after the one the cursor points at.
    pub closed spec fn upcoming(self) -> Seq<Component> {
        match self.component {
            None => Seq::empty(),
            Some(cur) => chain::<Order>(Order::next_spec(cur), 2),
        }
    }

    /// The walk from the cursor runs out within the three components; every
    /// iterator built over a well-formed order satisfies this, and every pull
    /// preserves it.
    pub closed spec fn wf(self) -> bool {
        chain_done::<Order>(self.component, 3)
    }

    fn new(color: Color) -> (r: ColorIterator<Order>)
        ensures
            policy_wf::<Order>() ==> r.wf() && r@ == color_bits::<Order>(color),
    {
        let component = Order::first();
        let iter = U8Iterator::from(component.select_from(&color));
        let r = ColorIterator { color, iter, component: Some(component), phantom: PhantomData };
        proof {
            if policy_wf::<Order>() {
                lemma_chain_bits_cons(
                    component,
                    chain::<Order>(Order::next_spec(component), 2),
                    color,
                );
            }
        }
        r
    }

    /// Produces the next bit of the color, draining one channel at a time and
    /// moving to the next channel the order dictates; `None` once every
    /// channel is exhausted. Pulling after that has no effect.
    pub fn next(&mut self) -> (r: Option<bool>)
        ensures
            old(self).wf() ==> final(self).wf(),
            old(self).wf() && old(self)@.len() == 0 ==> r == None::<bool> && final(self)@ == old(
                self,
            )@,
            old(self).wf() && old(self)@.len() > 0 ==> r == Some(old(self)@[0]) && final(self)@
                == old(self)@.skip(1),
    {
        if let Some(value) = self.iter.next() {
            proof {
                if old(self).wf() {
                    lemma_add_skip_one(old(self).iter@, chain_bits(old(self).upcoming(), self.color));
                }
            }
            Some(value)
        } else {
            if let Some(component) = self.component {
                let next_component = Order::next(&component);
                self.component = next_component;
                if let Some(component) = next_component {
                    self.iter.reset_to(component.select_from(&self.color));
                    proof {
                        if old(self).wf() {
                            broadcast use lemma_bits_of_len;

                            reveal_with_fuel(chain_done, 4);
                            reveal_with_fuel(chain, 4);
                            lemma_chain_fuel::<Order>(Order::next_spec(component), 1, 2);
                            lemma_chain_bits_cons(
                                component,
                                chain::<Order>(Order::next_spec(component), 1),
                                self.color,
                            );
                            assert(old(self)@ =~= byte_bits(component.select_spec(self.color))
                                + chain_bits(self.upcoming(), self.color));
                            lemma_add_skip_one(
                                byte_bits(component.select_spec(self.color)),
                                chain_bits(self.upcoming(), self.color),
                            );
                        }
                    }
                    self.iter.next()
                } else {
                    proof {
                        if old(self).wf() {
                            assert(old(self)@ =~= final(self)@);
                        }
                    }
                    None
                }
            } else {
                None
            }
        }
    }
}

impl Color {
    /// Constructs a new color for the given `red`, `green`, and `blue`
    /// components.
    pub fn new(red: u8, green: u8, blue: u8) -> (r: Color)
        ensures
            r == (Color { red, green, blue }),
    {
        Color { red, green, blue }
    }

    /// Flattens the color into its 24 bits in green-red-blue channel order.
    pub fn into_iter_gbr(self) -> (r: ColorIterator<OrderGBR>)
        ensures
            r.wf(),
            r@ == color_bits::<OrderGBR>(self),
    {
        proof {
            lemma_order_gbr_wf();
        }
        self.into_iter()
    }

    /// Flattens the color into its 24 bits in the channel order fixed by
    /// `Order`.
    pub fn into_iter<Order: ColorOrder>(self) -> (r: ColorIterator<Order>)
        ensures
            policy_wf::<Order>() ==> r.wf() && r@ == color_bits::<Order>(self),
    {
        ColorIterator::new(self)
    }
}

/// Implements `Green`, `Red`, `Blue` ordering.
pub struct OrderGBR {}

impl ColorOrder for OrderGBR {
    open spec fn first_spec() -> Component {
        Component::Green
    }

    open spec fn next_spec(current: Component) -> Option<Component> {
        match current {
            Component::Green => Some(Component::Red),
            Component::Red => Some(Component::Blue),
            Component::Blue => None,
        }
    }

    fn first() -> (r: Component) {
        Component::Green
    }

    fn next(current: &Component) -> (r: Option<Component>) {
        match current {
            Component::Green => Some(Component::Red),
            Component::Red => Some(Component::Blue),
            Component::Blue => None,
        }
    }
}

/// Law: the green-red-blue ordering is well-formed.
pub proof fn lemma_order_gbr_wf()
    ensures
        policy_wf::<OrderGBR>(),
{
    reveal_with_fuel(chain_done, 5);
    reveal_with_fuel(chain, 5);
    assert(chain::<OrderGBR>(Some(Component::Green), 3) =~= seq![
        Component::Green,
        Component::Red,
        Component::Blue,
    ]);
}

/// Law: under the green-red-blue ordering, the bit sequence of a color is
/// the green byte's 8 bits, then the red byte's, then the blue byte's —
/// 24 bits in all, each byte MSB first.
pub proof fn lemma_gbr_color_bits(color: Color)
    ensures
        color_bits::<OrderGBR>(color) == byte_bits(color.green) + byte_bits(color.red)
            + byte_bits(color.blue),
        color_bits::<OrderGBR>(color).len() == 24,
{
    broadcast use lemma_bits_of_len;

    reveal_with_fuel(chain, 5);
    let comps = chain::<OrderGBR>(Some(Component::Green), 3);
    assert(comps =~= seq![Component::Green, Component::Red, Component::Blue]);
    lemma_chain_bits_cons(
        Component::Green,
        seq![Component::Red, Component::Blue],
        color,
    );
    lemma_chain_bits_cons(Component::Red, seq![Component::Blue], color);
    lemma_chain_bits_cons(Component::Blue, Seq::empty(), color);
    assert(comps =~= seq![Component::Green] + seq![Component::Red, Component::Blue]);
    assert(seq![Component::Red, Component::Blue] =~= seq![Component::Red] + seq![
        Component::Blue,
    ]);
    assert(seq![Component::Blue] =~= seq![Component::Blue] + Seq::<Component>::empty());
    assert(chain_bits(Seq::empty(), color) =~= Seq::<bool>::empty());
    assert(byte_bits(color.blue) + Seq::<bool>::empty() =~= byte_bits(color.blue));
    assert(color_bits::<OrderGBR>(color) =~= byte_bits(color.green) + byte_bits(color.red)
        + byte_bits(color.blue));
}

/// Law: any well-formed component order yields exactly 24 bits for any color.
pub proof fn lemma_color_bits_len<Order: ColorOrder>(color: Color)
    requires
        policy_wf::<Order>(),
    ensures
        color_bits::<Order>(color).len() == 24,
{
    broadcast use lemma_bits_of_len;

    let comps = chain::<Order>(Some(Order::first_spec()), 3);
    assert(comps.len() == 3);
    lemma_chain_bits_cons(comps[0], comps.skip(1), color);
    assert(comps =~= seq![comps[0]] + comps.skip(1));
    lemma_chain_bits_cons(comps[1], comps.skip(2), color);
    assert(comps.skip(1) =~= seq![comps[1]] + comps.skip(2));
    lemma_chain_bits_cons(comps[2], Seq::empty(), color);
    assert(comps.skip(2) =~= seq![comps[2]] + Seq::<Component>::empty());
    assert(chain_bits(Seq::empty(), color) =~= Seq::<bool>::empty());
}

} // verus!
