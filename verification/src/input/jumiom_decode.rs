//! Decodes the Jumiom PSD's raw 32-bit-word list-mode stream into events,
//! for the `Tof1`, `Raw` and `Ramp` acquisition modes, with position mode 0
//! only (raw FPGA X/Y as histogram coordinates) and no per-pixel
//! limit-table filtering. `Tof1` neutron events outside an open gate are
//! dropped unless gating is switched off; `Raw` and `Ramp` records yield
//! one auxiliary-signal event per ADC channel.

use vstd::prelude::*;
use crate::event::{Event, EventFlags, EventTime, EventType, spec_new_event};
use crate::input::jumiom::JumiomMode;
use crate::input::jumiom::decode::{adc_scaled, next_index, pos_part, spec_adc12, with_rel};

verus! {

/// Each TOF1 tick is one microsecond.
pub const NS_PER_TICK: i64 = 1_000;

/// Stateful decoder for one Jumiom acquisition stream. Word framing (and,
/// for `Tof1`, in-progress event fields) persists across `feed` calls,
/// since a single event's words can be split across separate DMA chunks.
pub struct JumiomDecoder {
    pub mode: JumiomMode,
    pub use_gate: bool,
    /// Position within the current event, resynced to 0 whenever a word
    /// with the top bit set (a new frame) is seen; positions past the last
    /// word of a record all read as 4.
    pub index: i32,
    pub xfpga: u8,
    pub yfpga: u8,
    pub gatebit: bool,
    pub bit31: bool,
    pub ignore_w2w3: u32,
    pub tof_counter: i64,
    pub adc0: i32,
    pub adc1: i32,
    pub adc2: i32,
    pub adc3: i32,
    /// Scratch: word2 (`Tof1`) or the first word of a 2-word record.
    pub word_a: u32,
}

impl JumiomDecoder {
    pub open spec fn spec_mode(self) -> JumiomMode {
        self.mode
    }

    /// Position in the current record; negative before the first framing
    /// word.
    pub open spec fn spec_index(self) -> i32 {
        self.index
    }

    /// The decoder's state for a fresh stream in `mode`.
    pub open spec fn initial(mode: JumiomMode, use_gate: bool) -> JumiomDecoder {
        JumiomDecoder {
            mode,
            use_gate,
            index: -1i32,
            xfpga: 0,
            yfpga: 0,
            gatebit: false,
            bit31: false,
            ignore_w2w3: 0,
            tof_counter: 0,
            adc0: 0,
            adc1: 0,
            adc2: 0,
            adc3: 0,
            word_a: 0,
        }
    }

    /// The ranges the decoder's fields stay in.
    pub open spec fn wf(self) -> bool {
        -1 <= self.index <= 4 && 0 <= self.tof_counter <= u32::MAX && -256 <= self.adc0 < 256
            && -256 <= self.adc1 < 256 && -256 <= self.adc2 < 256 && -256 <= self.adc3 < 256
    }

    /// One `Tof1` word: the decoder's next state and the event it completes.
    pub open spec fn step_tof1(self, word: u32) -> (JumiomDecoder, Seq<Event>) {
        let s = JumiomDecoder { index: next_index(self.index, word), ..self };
        if s.index == 0 {
            (
                JumiomDecoder {
                    xfpga: (word & 0xFF) as u8,
                    yfpga: ((word >> 8) & 0xFF) as u8,
                    gatebit: word & 0x4000_0000 != 0,
                    bit31: word & 0x2000_0000 != 0,
                    ignore_w2w3: word & 0x1800_0000,
                    ..s
                },
                Seq::empty(),
            )
        } else if s.index == 1 {
            let counter: u32 = if s.bit31 {
                word | 0x8000_0000
            } else {
                word
            };
            let s2 = JumiomDecoder { tof_counter: counter as i64, ..s };
            let t = counter * NS_PER_TICK;
            if s.ignore_w2w3 & 0x1000_0000 != 0 {
                (s2, seq![with_rel(spec_new_event(EventType::Monitor { num: 0 }), t as i64)])
            } else if s.ignore_w2w3 & 0x0800_0000 != 0 {
                (s2, seq![with_rel(spec_new_event(EventType::Tzero), t as i64)])
            } else {
                (s2, Seq::empty())
            }
        } else if s.index == 2 {
            if s.ignore_w2w3 == 0 {
                (
                    JumiomDecoder {
                        word_a: word,
                        adc0: spec_adc12(word, 0) >> 3,
                        adc1: spec_adc12(word, 16) >> 3,
                        ..s
                    },
                    Seq::empty(),
                )
            } else {
                (s, Seq::empty())
            }
        } else if s.index == 3 {
            if s.ignore_w2w3 != 0 {
                (s, Seq::empty())
            } else if !(s.gatebit || !s.use_gate) {
                (
                    JumiomDecoder {
                        adc2: spec_adc12(word, 0) >> 3,
                        adc3: spec_adc12(word, 16) >> 3,
                        ..s
                    },
                    Seq::empty(),
                )
            } else {
                let s2 = JumiomDecoder {
                    adc2: spec_adc12(word, 0) >> 3,
                    adc3: spec_adc12(word, 16) >> 3,
                    ..s
                };
                let sum = pos_part(s2.adc0) + pos_part(s2.adc1) + pos_part(s2.adc2) + pos_part(
                    s2.adc3,
                );
                let ev = Event {
                    ampl: crate::event::Amplitude((sum / 4) as u32),
                    raw: (s.word_a, word),
                    ..spec_new_event(EventType::Neutron)
                };
                let ev2 = with_rel(ev, (s.tof_counter * NS_PER_TICK) as i64);
                let ev3 = Event {
                    histo: crate::event::EventHisto { x: s.xfpga as u16, y: s.yfpga as u16, ..ev2.histo },
                    ..ev2
                };
                (s2, seq![ev3])
            }
        } else {
            (s, Seq::empty())
        }
    }

    /// One `Raw` or `Ramp` word: a two-word record whose four channel
    /// values each become an auxiliary-signal event, numbered by channel.
    pub open spec fn step_two_word(self, word: u32, ramp: bool) -> (JumiomDecoder, Seq<Event>) {
        let s = JumiomDecoder { index: next_index(self.index, word), ..self };
        if s.index == 0 {
            (JumiomDecoder { word_a: word, ..s }, Seq::empty())
        } else if s.index == 1 {
            let w0 = s.word_a;
            let adc = channel_values(w0, word, ramp);
            (s, Seq::new(4, |i: int| aux_event(i, adc[i], w0, word)))
        } else {
            (s, Seq::empty())
        }
    }

    /// One word in the decoder's mode.
    pub open spec fn step(self, word: u32) -> (JumiomDecoder, Seq<Event>) {
        match self.mode {
            JumiomMode::Tof1 => self.step_tof1(word),
            JumiomMode::Raw => self.step_two_word(word, false),
            JumiomMode::Ramp => self.step_two_word(word, true),
        }
    }

    /// The state after `words` and the events they complete, in order.
    pub open spec fn run(self, words: Seq<u32>) -> (JumiomDecoder, Seq<Event>)
        decreases words.len(),
    {
        if words.len() == 0 {
            (self, seq![])
        } else {
            let (s1, evs) = self.run(words.drop_last());
            let (s2, e) = s1.step(words.last());
            (s2, evs + e)
        }
    }

    /// Feeding words in two chunks gives the same state and, concatenated,
    /// the same events as feeding them at once.
    pub proof fn law_feed_in_chunks(self, a: Seq<u32>, b: Seq<u32>)
        ensures
            self.run(a + b).0 == self.run(a).0.run(b).0,
            self.run(a + b).1 == self.run(a).1 + self.run(a).0.run(b).1,
        decreases b.len(),
    {
        if b.len() == 0 {
            assert(a + b =~= a);
            assert(self.run(a).1 + seq![] =~= self.run(a).1);
        } else {
            self.law_feed_in_chunks(a, b.drop_last());
            assert((a + b).drop_last() =~= a + b.drop_last());
            assert((a + b).last() == b.last());
            let m = self.run(a).0;
            let (s1, e1) = m.run(b.drop_last());
            let (s2, e) = s1.step(b.last());
            assert(self.run(a).1 + (e1 + e) =~= (self.run(a).1 + e1) + e);
        }
    }

    /// Each word completes at most four events.
    pub proof fn law_events_per_word(self, words: Seq<u32>)
        ensures
            self.run(words).1.len() <= 4 * words.len(),
        decreases words.len(),
    {
        if words.len() > 0 {
            self.law_events_per_word(words.drop_last());
        }
    }

    /// Before the first framing word (top bit set) the decoder skips
    /// every word: nothing changes and nothing comes out.
    pub proof fn law_unframed_words_skipped(self, words: Seq<u32>)
        requires
            self.spec_index() < 0,
            forall|i: int| 0 <= i < words.len() ==> #[trigger] words[i] & 0x8000_0000u32 == 0,
        ensures
            self.run(words).0 == self,
            self.run(words).1.len() == 0,
        decreases words.len(),
    {
        if words.len() > 0 {
            self.law_unframed_words_skipped(words.drop_last());
            assert(words.drop_last().len() < words.len());
            assert(words.last() & 0x8000_0000u32 == 0);
        }
    }

    /// A fresh decoder waits for a framing word.
    pub proof fn law_fresh_decoder_waits_for_framing(mode: JumiomMode, use_gate: bool)
        ensures
            JumiomDecoder::initial(mode, use_gate).spec_index() < 0,
    {
    }

    proof fn lemma_step_wf(self, word: u32)
        requires
            self.wf(),
        ensures
            self.step(word).0.wf(),
            self.step(word).0.mode == self.mode,
    {
        let v0 = (word >> 0u32) & 0xFFF;
        let v16 = (word >> 16u32) & 0xFFF;
        assert(v0 <= 0xFFF && v16 <= 0xFFF) by (bit_vector)
            requires
                v0 == (word >> 0u32) & 0xFFF,
                v16 == (word >> 16u32) & 0xFFF,
        ;
        let a0 = spec_adc12(word, 0);
        let a16 = spec_adc12(word, 16);
        assert(-256 <= (a0 >> 3) < 256 && -256 <= (a16 >> 3) < 256) by (bit_vector)
            requires
                -2048 <= a0 < 2048,
                -2048 <= a16 < 2048,
        ;
    }

    /// A decoder for a fresh stream; with `use_gate`, `Tof1` neutron events
    /// outside an open gate are dropped.
    pub fn new(mode: JumiomMode, use_gate: bool) -> (d: JumiomDecoder)
        ensures
            d.wf(),
            d == JumiomDecoder::initial(mode, use_gate),
    {
        JumiomDecoder {
            mode,
            use_gate,
            index: -1i32,
            xfpga: 0,
            yfpga: 0,
            gatebit: false,
            bit31: false,
            ignore_w2w3: 0,
            tof_counter: 0,
            adc0: 0,
            adc1: 0,
            adc2: 0,
            adc3: 0,
            word_a: 0,
        }
    }

    fn advance_index(&mut self, word: u32)
        requires
            -1 <= old(self).index <= 4,
        ensures
            *final(self) == (JumiomDecoder { index: next_index(old(self).index, word), ..*old(self) }),
    {
        if word & 0x8000_0000 != 0 {
            self.index = 0;
        } else if 0 <= self.index && self.index < 4 {
            self.index = self.index + 1;
        }
    }

    fn feed_tof1(&mut self, word: u32, events: &mut Vec<Event>)
        requires
            old(self).wf(),
        ensures
            *final(self) == old(self).step_tof1(word).0,
            final(events)@ == old(events)@ + old(self).step_tof1(word).1,
    {
        let ghost before = events@;
        self.advance_index(word);
        if self.index == 0 {
            self.xfpga = (word & 0xFF) as u8;
            self.yfpga = ((word >> 8) & 0xFF) as u8;
            self.gatebit = word & 0x4000_0000 != 0;
            self.bit31 = word & 0x2000_0000 != 0;
            self.ignore_w2w3 = word & 0x1800_0000;
            assert(events@ =~= before + Seq::<Event>::empty());
        } else if self.index == 1 {
            let counter = if self.bit31 {
                word | 0x8000_0000
            } else {
                word
            };
            self.tof_counter = counter as i64;
            let rel_time = EventTime::from_ticks(NS_PER_TICK, self.tof_counter);
            if self.ignore_w2w3 & 0x1000_0000 != 0 {
                events.push(Event::new(EventType::Monitor { num: 0 }).with_rel_time(rel_time));
            } else if self.ignore_w2w3 & 0x0800_0000 != 0 {
                events.push(Event::new(EventType::Tzero).with_rel_time(rel_time));
            } else {
                assert(events@ =~= before + Seq::<Event>::empty());
            }
        } else if self.index == 2 {
            if self.ignore_w2w3 == 0 {
                self.word_a = word;
                self.adc0 = adc_scaled(word, 0);
                self.adc1 = adc_scaled(word, 16);
            }
            assert(events@ =~= before + Seq::<Event>::empty());
        } else if self.index == 3 {
            if self.ignore_w2w3 != 0 {
                assert(events@ =~= before + Seq::<Event>::empty());
                return;
            }
            let word2 = self.word_a;
            self.adc2 = adc_scaled(word, 0);
            self.adc3 = adc_scaled(word, 16);
            if self.gatebit || !self.use_gate {
                let mut sum: i32 = 0;
                if self.adc0 >= 0 {
                    sum = sum + self.adc0;
                }
                if self.adc1 >= 0 {
                    sum = sum + self.adc1;
                }
                if self.adc2 >= 0 {
                    sum = sum + self.adc2;
                }
                if self.adc3 >= 0 {
                    sum = sum + self.adc3;
                }
                let mut ev = Event::new(EventType::Neutron).with_ampl((sum / 4) as u32).with_raw(
                    word2,
                    word,
                ).with_rel_time(EventTime::from_ticks(NS_PER_TICK, self.tof_counter));
                ev.histo.x = self.xfpga as u16;
                ev.histo.y = self.yfpga as u16;
                events.push(ev);
            } else {
                assert(events@ =~= before + Seq::<Event>::empty());
            }
        } else {
            assert(events@ =~= before + Seq::<Event>::empty());
        }
    }

    fn feed_two_word(&mut self, word: u32, ramp: bool, events: &mut Vec<Event>)
        requires
            old(self).wf(),
        ensures
            *final(self) == old(self).step_two_word(word, ramp).0,
            final(events)@ == old(events)@ + old(self).step_two_word(word, ramp).1,
    {
        let ghost before = events@;
        self.advance_index(word);
        if self.index == 0 {
            self.word_a = word;
            assert(events@ =~= before + Seq::<Event>::empty());
        } else if self.index == 1 {
            let w0 = self.word_a;
            let adc = channel_values_exec(w0, word, ramp);
            let mut num: usize = 0;
            while num < 4
                invariant
                    num <= 4,
                    adc@ == channel_values(w0, word, ramp),
                    events@ == before + Seq::new(num as nat, |i: int| aux_event(i, adc@[i], w0, word)),
                decreases 4 - num,
            {
                let ghost prev = events@;
                events.push(
                    Event::new(EventType::AuxSignal { num: num as u8 }).with_ampl(adc[num]).with_raw(
                        w0,
                        word,
                    ),
                );
                proof {
                    assert(events@ =~= before + Seq::new((num + 1) as nat, |i: int| aux_event(i, adc@[i], w0, word)));
                }
                num = num + 1;
            }
        } else {
            assert(events@ =~= before + Seq::<Event>::empty());
        }
    }

    /// Decodes a chunk of 32-bit words, returning the events completed by
    /// this chunk (an event started in a previous chunk may complete here,
    /// and one started here may only complete in the next).
    pub fn feed(&mut self, words: &[u32]) -> (events: Vec<Event>)
        requires
            old(self).wf(),
        ensures
            final(self).wf(),
            (*final(self), events@) == old(self).run(words@),
    {
        let mut events: Vec<Event> = Vec::new();
        let mut i: usize = 0;
        let ghost start = *self;
        while i < words.len()
            invariant
                self.wf(),
                i <= words@.len(),
                (*self, events@) == start.run(words@.subrange(0, i as int)),
            decreases words@.len() - i,
        {
            let word = words[i];
            proof {
                    self.lemma_step_wf(word);
                assert(words@.subrange(0, i + 1).drop_last() =~= words@.subrange(0, i as int));
            }
            match self.mode {
                JumiomMode::Tof1 => self.feed_tof1(word, &mut events),
                JumiomMode::Raw => self.feed_two_word(word, false, &mut events),
                JumiomMode::Ramp => self.feed_two_word(word, true, &mut events),
            }
            i = i + 1;
        }
        proof {
            assert(words@.subrange(0, words@.len() as int) =~= words@);
        }
        events
    }
}

/// The four 8-bit channel values of a `Raw` record, or of a `Ramp` record.
pub open spec fn channel_values(w0: u32, w1: u32, ramp: bool) -> Seq<u32> {
    if ramp {
        seq![
            (w0 & 0x7FFF_0000) >> 23,
            (w0 & 0x0000_7FFF) >> 7,
            (w1 & 0x7FFF_0000) >> 23,
            (w1 & 0x0000_7FFF) >> 7,
        ]
    } else {
        seq![
            (w0 & 0x0000_0FF0) >> 4,
            (w0 & 0x0FF0_0000) >> 20,
            (w1 & 0x0000_0FF0) >> 4,
            (w1 & 0x0FF0_0000) >> 20,
        ]
    }
}

/// The auxiliary-signal event of channel `i` of a two-word record.
pub open spec fn aux_event(i: int, ampl: u32, w0: u32, w1: u32) -> Event {
    Event {
        ampl: crate::event::Amplitude(ampl),
        raw: (w0, w1),
        ..spec_new_event(EventType::AuxSignal { num: i as u8 })
    }
}

fn channel_values_exec(w0: u32, w1: u32, ramp: bool) -> (v: Vec<u32>)
    ensures
        v@ == channel_values(w0, w1, ramp),
{
    if ramp {
        vec![(w0 & 0x7FFF_0000) >> 23, (w0 & 0x0000_7FFF) >> 7, (w1 & 0x7FFF_0000) >> 23, (w1 & 0x0000_7FFF) >> 7]
    } else {
        vec![(w0 & 0x0000_0FF0) >> 4, (w0 & 0x0FF0_0000) >> 20, (w1 & 0x0000_0FF0) >> 4, (w1 & 0x0FF0_0000) >> 20]
    }
}

} // verus!
