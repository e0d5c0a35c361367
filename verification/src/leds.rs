//! The ring of eight indicator lights: one per compass sector.
//!
//! A light is held as the level last commanded to it; the platform adapter
//! copies the levels to the pins.
use vstd::prelude::*;
use crate::sector::Sector;

verus! {

/// The lights by their board labels.
#[derive(Clone, Copy, Debug, PartialEq, Eq, Structural)]
pub enum LedId {
    /// North
    Led3,
    /// Northwest
    Led4,
    /// Northeast
    Led5,
    /// West
    Led6,
    /// East
    Led7,
    /// Southwest
    Led8,
    /// Southeast
    Led9,
    /// South
    Led10,
}

/// The lights clockwise from north.
pub open spec fn ring() -> Seq<LedId> {
    seq![
        LedId::Led3,
        LedId::Led5,
        LedId::Led7,
        LedId::Led9,
        LedId::Led10,
        LedId::Led8,
        LedId::Led6,
        LedId::Led4,
    ]
}

/// Every light has its place in the ring.
pub proof fn lemma_ring_complete()
    ensures
        forall|id: LedId| ring().contains(id),
        ring().len() == 8,
{
    assert forall|id: LedId| ring().contains(id) by {
        let i: int = match id {
            LedId::Led3 => 0,
            LedId::Led5 => 1,
            LedId::Led7 => 2,
            LedId::Led9 => 3,
            LedId::Led10 => 4,
            LedId::Led8 => 5,
            LedId::Led6 => 6,
            LedId::Led4 => 7,
        };
        assert(ring()[i] == id);
    }
}

/// A ring is determined by the set of its lit lights.
pub proof fn lemma_ring_shows_its_view(leds: Leds)
    ensures
        Leds::showing(leds@) == leds,
{
    assert(leds@.contains(LedId::Led3) == leds.lit(LedId::Led3));
    assert(leds@.contains(LedId::Led4) == leds.lit(LedId::Led4));
    assert(leds@.contains(LedId::Led5) == leds.lit(LedId::Led5));
    assert(leds@.contains(LedId::Led6) == leds.lit(LedId::Led6));
    assert(leds@.contains(LedId::Led7) == leds.lit(LedId::Led7));
    assert(leds@.contains(LedId::Led8) == leds.lit(LedId::Led8));
    assert(leds@.contains(LedId::Led9) == leds.lit(LedId::Led9));
    assert(leds@.contains(LedId::Led10) == leds.lit(LedId::Led10));
}

/// Number of lights in the ring.
pub const ITERATOR_SIZE: usize = 8;

/// One light: `lit` is the level last commanded.
#[derive(Clone, Copy, Debug, PartialEq, Eq, Structural)]
pub struct Led {
    pub lit: bool,
}

impl Led {
    /// A light that has not been switched on.
    pub fn new() -> (led: Led)
        ensures
            !led.lit,
    {
        Led { lit: false }
    }

    pub fn on(&mut self)
        ensures
            final(self).lit,
    {
        self.lit = true;
    }

    pub fn off(&mut self)
        ensures
            !final(self).lit,
    {
        self.lit = false;
    }

    pub fn is_on(&self) -> (lit: bool)
        ensures
            lit == self.lit,
    {
        self.lit
    }
}

/// The eight lights. The view is the set of lights that are lit.
#[derive(Clone, Copy, Debug, PartialEq, Eq, Structural)]
pub struct Leds {
    pub ld3: Led,
    pub ld4: Led,
    pub ld5: Led,
    pub ld6: Led,
    pub ld7: Led,
    pub ld8: Led,
    pub ld9: Led,
    pub ld10: Led,
}

impl View for Leds {
    type V = Set<LedId>;

    open spec fn view(&self) -> Set<LedId> {
        Set::new(|id: LedId| self.lit(id))
    }
}

impl Leds {
    /// Whether the light `id` is lit.
    pub open spec fn lit(self, id: LedId) -> bool {
        match id {
            LedId::Led3 => self.ld3.lit,
            LedId::Led4 => self.ld4.lit,
            LedId::Led5 => self.ld5.lit,
            LedId::Led6 => self.ld6.lit,
            LedId::Led7 => self.ld7.lit,
            LedId::Led8 => self.ld8.lit,
            LedId::Led9 => self.ld9.lit,
            LedId::Led10 => self.ld10.lit,
        }
    }

    /// The ring in which exactly the lights of `lit` are lit.
    pub open spec fn showing(lit: Set<LedId>) -> Leds {
        Leds {
            ld3: Led { lit: lit.contains(LedId::Led3) },
            ld4: Led { lit: lit.contains(LedId::Led4) },
            ld5: Led { lit: lit.contains(LedId::Led5) },
            ld6: Led { lit: lit.contains(LedId::Led6) },
            ld7: Led { lit: lit.contains(LedId::Led7) },
            ld8: Led { lit: lit.contains(LedId::Led8) },
            ld9: Led { lit: lit.contains(LedId::Led9) },
            ld10: Led { lit: lit.contains(LedId::Led10) },
        }
    }

    /// The ring with every light dark.
    pub fn new() -> (leds: Leds)
        ensures
            leds@ == Set::<LedId>::empty(),
    {
        let leds = Leds {
            ld3: Led::new(),
            ld4: Led::new(),
            ld5: Led::new(),
            ld6: Led::new(),
            ld7: Led::new(),
            ld8: Led::new(),
            ld9: Led::new(),
            ld10: Led::new(),
        };
        assert(leds@ =~= Set::<LedId>::empty());
        leds
    }

    pub fn is_on(&self, id: LedId) -> (lit: bool)
        ensures
            lit == self@.contains(id),
    {
        match id {
            LedId::Led3 => self.ld3.is_on(),
            LedId::Led4 => self.ld4.is_on(),
            LedId::Led5 => self.ld5.is_on(),
            LedId::Led6 => self.ld6.is_on(),
            LedId::Led7 => self.ld7.is_on(),
            LedId::Led8 => self.ld8.is_on(),
            LedId::Led9 => self.ld9.is_on(),
            LedId::Led10 => self.ld10.is_on(),
        }
    }

    /// Switches one light on and leaves the others as they are.
    pub fn on(&mut self, id: LedId)
        ensures
            final(self)@ == old(self)@.insert(id),
    {
        match id {
            LedId::Led3 => self.ld3.on(),
            LedId::Led4 => self.ld4.on(),
            LedId::Led5 => self.ld5.on(),
            LedId::Led6 => self.ld6.on(),
            LedId::Led7 => self.ld7.on(),
            LedId::Led8 => self.ld8.on(),
            LedId::Led9 => self.ld9.on(),
            LedId::Led10 => self.ld10.on(),
        }
        assert(self@ =~= old(self)@.insert(id));
    }

    /// Switches one light off and leaves the others as they are.
    pub fn off(&mut self, id: LedId)
        ensures
            final(self)@ == old(self)@.remove(id),
    {
        match id {
            LedId::Led3 => self.ld3.off(),
            LedId::Led4 => self.ld4.off(),
            LedId::Led5 => self.ld5.off(),
            LedId::Led6 => self.ld6.off(),
            LedId::Led7 => self.ld7.off(),
            LedId::Led8 => self.ld8.off(),
            LedId::Led9 => self.ld9.off(),
            LedId::Led10 => self.ld10.off(),
        }
        assert(self@ =~= old(self)@.remove(id));
    }

    /// Switches every light off.
    pub fn clear_all(&mut self)
        ensures
            final(self)@ == Set::<LedId>::empty(),
    {
        let mut it = self.iter_mut();
        proof {
            lemma_ring_complete();
        }
        loop
            invariant
                it.wf(),
                forall|id: LedId| self@.contains(id) ==> it@.contains(id),
            ensures
                self@ =~= Set::<LedId>::empty(),
            decreases it@.len(),
        {
            let ghost before = it@;
            let ghost lit = self@;
            match it.next() {
                Some(id) => {
                    self.off(id);
                    assert forall|other: LedId| self@.contains(other) implies it@.contains(other) by {
                        assert(lit.contains(other) && other != id);
                        assert(before.contains(other));
                        let j = choose|j: int| 0 <= j < before.len() && before[j] == other;
                        assert(it@[j - 1] == other);
                    }
                },
                None => {
                    assert forall|other: LedId| !self@.contains(other) by {
                        if self@.contains(other) {
                            assert(before.contains(other));
                        }
                    }
                    break ;
                },
            }
        }
    }

    /// Switches the light of `sector` on and the other seven off.
    pub fn set_sector(&mut self, sector: Sector)
        ensures
            final(self)@ == set![sector.spec_led()],
    {
        self.clear_all();
        self.on(sector.led());
        assert(self@ =~= set![sector.spec_led()]);
    }

    /// A cursor over all eight lights, clockwise from north.
    pub fn iter_mut(&mut self) -> (it: LedsMutIterator)
        ensures
            it.wf(),
            it@ == ring(),
            *final(self) == *old(self),
    {
        LedsMutIterator::new()
    }
}

/// A cursor that hands out the lights of the ring from either end. The view
/// is the run of lights not yet handed out, clockwise.
#[derive(Clone, Copy, Debug)]
pub struct LedsMutIterator {
    index: usize,
    /// One past the last light still to come from the back.
    index_back: usize,
}

impl View for LedsMutIterator {
    type V = Seq<LedId>;

    closed spec fn view(&self) -> Seq<LedId> {
        ring().subrange(self.index as int, self.index_back as int)
    }
}

impl LedsMutIterator {
    pub closed spec fn wf(self) -> bool {
        self.index <= self.index_back <= ITERATOR_SIZE
    }

    fn new() -> (it: LedsMutIterator)
        ensures
            it.wf(),
            it@ == ring(),
    {
        let it = LedsMutIterator { index: 0, index_back: ITERATOR_SIZE };
        assert(it@ =~= ring());
        it
    }

    /// The light at position `i` of the ring.
    fn at(i: usize) -> (id: LedId)
        requires
            i < ITERATOR_SIZE,
        ensures
            id == ring()[i as int],
    {
        match i {
            0 => LedId::Led3,
            1 => LedId::Led5,
            2 => LedId::Led7,
            3 => LedId::Led9,
            4 => LedId::Led10,
            5 => LedId::Led8,
            6 => LedId::Led6,
            _ => LedId::Led4,
        }
    }

    /// Number of lights still to come.
    pub fn len(&self) -> (n: usize)
        requires
            self.wf(),
        ensures
            n == self@.len(),
    {
        self.index_back - self.index
    }

    /// Lower and upper bound of the number of lights still to come: both
    /// are that number.
    pub fn size_hint(&self) -> (hint: (usize, Option<usize>))
        requires
            self.wf(),
        ensures
            hint.0 == self@.len(),
            hint.1 == Some(hint.0),
    {
        let length = self.len();
        (length, Some(length))
    }

    /// Hands out the next light clockwise, or `None` once all are out.
    pub fn next(&mut self) -> (item: Option<LedId>)
        requires
            old(self).wf(),
        ensures
            final(self).wf(),
            old(self)@.len() == 0 ==> item is None && final(self)@ == old(self)@,
            old(self)@.len() > 0 ==> item == Some(old(self)@.first()) && final(self)@ == old(
                self,
            )@.drop_first(),
    {
        if self.len() == 0 {
            None
        } else {
            let current = LedsMutIterator::at(self.index);
            self.index += 1;
            assert(self@ =~= old(self)@.drop_first());
            Some(current)
        }
    }

    /// Hands out the next light counterclockwise, or `None` once all are
    /// out.
    pub fn next_back(&mut self) -> (item: Option<LedId>)
        requires
            old(self).wf(),
        ensures
            final(self).wf(),
            old(self)@.len() == 0 ==> item is None && final(self)@ == old(self)@,
            old(self)@.len() > 0 ==> item == Some(old(self)@.last()) && final(self)@ == old(
                self,
            )@.drop_last(),
    {
        if self.len() == 0 {
            None
        } else {
            let current = LedsMutIterator::at(self.index_back - 1);
            self.index_back -= 1;
            assert(self@ =~= old(self)@.drop_last());
            Some(current)
        }
    }
}

} // verus!
