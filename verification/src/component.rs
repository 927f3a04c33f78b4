use crate::events::C_Param;
use crate::events::EventEmitter;
use crate::events::EventHandler;
use crate::events::Signal;
use crate::events::SignalView;
use crate::events::spec_params;
use crate::events::spec_send;
use rand::distributions::Distribution;
use vstd::prelude::*;

verus! {

/// Width of an identifier in bytes.
pub const UID_SIZE: usize = 16;

/// Opaque identifier naming one component instance. Identifiers are compared
/// for equality only. A generated one is sixteen random hexadecimal digits,
/// 64 bits in all, so two of them may collide.
pub type UID = [u8; UID_SIZE];

/// The sixteen digits an identifier is drawn from: `0`-`9`, then `A`-`F`.
pub open spec fn spec_hex_digit(i: int) -> u8 {
    if i < 10 {
        (48 + i) as u8
    } else {
        (55 + i) as u8
    }
}

/// Whether `b` is one of the digits `0`-`9` or `A`-`F`.
pub open spec fn is_hex_digit(b: u8) -> bool {
    (48 <= b <= 57) || (65 <= b <= 70)
}

/// Whether every byte of `id` is a hexadecimal digit.
pub open spec fn is_hex_uid(id: UID) -> bool {
    forall|k: int| 0 <= k < UID_SIZE ==> is_hex_digit(#[trigger] id[k])
}

/// The `i`-th hexadecimal digit as an ASCII byte.
pub fn hex_digit(i: usize) -> (d: u8)
    requires
        i < 16,
    ensures
        d == spec_hex_digit(i as int),
        is_hex_digit(d),
{
    if i < 10 {
        48u8 + (i as u8)
    } else {
        55u8 + (i as u8)
    }
}

/// Draws one value below `bound` from the thread-local generator of `rand`:
/// `Uniform::from(0..bound)`, sampled once. The distribution covers the
/// half-open range, so the value is below `bound`; nothing is claimed about
/// which value comes. An empty range would panic, hence the precondition.
#[verifier::external_body]
fn random_below(bound: usize) -> (r: usize)
    requires
        bound > 0,
    ensures
        r < bound,
{
    rand::distributions::Uniform::from(0..bound).sample(&mut rand::thread_rng())
}

/// A fresh identifier: sixteen hexadecimal digits, each drawn at random.
pub fn generateUID() -> (id: UID)
    ensures
        is_hex_uid(id),
{
    let mut id: UID = [0u8; UID_SIZE];
    let mut i: usize = 0;
    while i < UID_SIZE
        invariant
            i <= UID_SIZE,
            forall|k: int| 0 <= k < i ==> is_hex_digit(#[trigger] id[k]),
        decreases UID_SIZE - i,
    {
        let d = hex_digit(random_below(16));
        id[i] = d;
        i += 1;
    }
    id
}

/// Anything that has an identity and can be told through which emitter to
/// publish.
pub trait Component {
    /// The identifier of the component.
    spec fn spec_uid(&self) -> UID;

    /// The emitter the component publishes through, if one is bound.
    spec fn spec_emitter(&self) -> Option<EventEmitter>;

    /// The identifier of the component. It is the same on every call.
    fn uid(&self) -> (id: UID)
        ensures
            id == self.spec_uid(),
    ;

    /// Binds the emitter the component publishes through from now on, or
    /// unbinds it. The identifier stays as it is.
    fn listen(&mut self, emitter: Option<EventEmitter>)
        ensures
            final(self).spec_uid() == old(self).spec_uid(),
            final(self).spec_emitter() == emitter,
    ;
}

/// A component that is nothing but an identity and a way to publish.
pub struct GenericComponent {
    id: UID,
    emitter: Option<EventEmitter>,
}

impl Component for GenericComponent {
    closed spec fn spec_uid(&self) -> UID {
        self.id
    }

    closed spec fn spec_emitter(&self) -> Option<EventEmitter> {
        self.emitter
    }

    fn uid(&self) -> (id: UID) {
        self.id
    }

    fn listen(&mut self, emitter: Option<EventEmitter>) {
        self.emitter = emitter;
    }
}

impl GenericComponent {
    /// A component with a fresh identifier and no emitter.
    pub fn new() -> (component: Self)
        ensures
            is_hex_uid(component.spec_uid()),
            component.spec_emitter() is None,
    {
        GenericComponent { id: generateUID(), emitter: None }
    }

    /// Publishes an event of kind `eventType` with the arguments `params`
    /// through the bound emitter; the event carries the identifier the
    /// emitter is stamped with. Without an emitter nothing happens.
    pub fn publish(&mut self, bus: &mut EventHandler, eventType: &'static str, params: Vec<C_Param>)
        ensures
            final(self).spec_uid() == old(self).spec_uid(),
            final(self).spec_emitter() == old(self).spec_emitter(),
            final(bus).spec_is_open() == old(bus).spec_is_open(),
            old(self).spec_emitter() is Some && old(bus).spec_is_open() ==> final(bus)@
                == spec_send(
                old(bus)@,
                SignalView {
                    kind: Some(eventType@),
                    origin: old(self).spec_emitter()->0.spec_owner()@,
                    args: spec_params(params@),
                },
            ),
            old(self).spec_emitter() is None || !old(bus).spec_is_open() ==> final(bus)@ == old(
                bus,
            )@,
    {
        match self.emitter {
            Some(mut emitter) => {
                let signal = Signal::raw(eventType, emitter.owner(), params);
                emitter.send(bus, signal);
            },
            None => {},
        }
    }
}

/// A component boxed together with its identifier, so that the identifier
/// can be read without reaching into the component.
pub struct UIDHandle<T> {
    pub id: UID,
    pub handle: Box<T>,
}

impl<T: Component> UIDHandle<T> {
    /// Boxes `val` and notes its identifier beside it.
    pub fn new(val: T) -> (handle: Self)
        ensures
            handle.id == val.spec_uid(),
            *handle.handle == val,
    {
        let id = val.uid();
        UIDHandle { id, handle: Box::new(val) }
    }
}

} // verus!
