//! Decodes the Jumiom PSD's raw 32-bit-word list-mode stream into events,
//! for the `Tof1`, `Raw` and `Ramp` acquisition modes.
//!
//! No position calculation happens here: a `Tof1` neutron event's raw FPGA
//! X/Y is encoded into the event's channel (X in the low byte, Y in the
//! next byte). Gate filtering isn't done here either: `Tof1` has no
//! separate gate-signal word, just a bit riding along on every neutron
//! event, so a `Gate` event is synthesized on each transition and every
//! neutron event is emitted.

use vstd::prelude::*;
use crate::event::{Event, EventFlags, EventTime, EventType, spec_new_event};
use crate::input::jumiom::JumiomMode;

verus! {

/// Each TOF1 tick is one microsecond.
pub const NS_PER_TICK: i64 = 1_000;

/// The 12-bit field at `shift` in `word`, sign-extended.
pub open spec fn spec_adc12(word: u32, shift: u32) -> i32 {
    let v = (word >> shift) & 0xFFF;
    if v >= 0x800 {
        (v - 0x1000) as i32
    } else {
        v as i32
    }
}

pub fn adc12(word: u32, shift: u32) -> (r: i32)
    requires
        shift < 32,
    ensures
        r == spec_adc12(word, shift),
        -2048 <= r < 2048,
{
    let v = (word >> shift) & 0xFFF;
    assert(v <= 0xFFF) by (bit_vector)
        requires
            v == (word >> shift) & 0xFFF,
    ;
    if v >= 0x800 {
        v as i32 - 0x1000
    } else {
        v as i32
    }
}

/// The 12-bit field at `shift`, sign-extended, in units of 8 counts.
pub fn adc_scaled(word: u32, shift: u32) -> (r: i32)
    requires
        shift < 32,
    ensures
        r == spec_adc12(word, shift) >> 3,
        -256 <= r < 256,
{
    let a = adc12(word, shift);
    assert(-256 <= (a >> 3) < 256) by (bit_vector)
        requires
            -2048 <= a < 2048,
    ;
    a >> 3
}

/// `ev` with relative time `t`, marked as known.
pub open spec fn with_rel(ev: Event, t: i64) -> Event {
    Event {
        rel_time: EventTime(t),
        flags: EventFlags::spec_from_members(true, ev.flags.is_fake()),
        ..ev
    }
}

/// The events of an optional single event.
pub open spec fn opt_seq(e: Option<Event>) -> Seq<Event> {
    match e {
        Some(ev) => seq![ev],
        None => seq![],
    }
}

/// Stateful decoder for one Jumiom acquisition stream. Word framing (and,
/// for `Tof1`, in-progress event fields) persists across `feed` calls,
/// since a single event's words can be split across separate DMA chunks.
pub struct JumiomDecoder {
    pub mode: JumiomMode,
    /// Position within the current event, resynced to 0 whenever a word
    /// with the top bit set (a new frame) is seen; positions past the last
    /// word of a record all read as 4.
    pub index: i32,
    pub xfpga: u8,
    pub yfpga: u8,
    pub gatebit: bool,
    /// Last gate state a `Gate` event was emitted for.
    pub last_gatebit: bool,
    pub bit31: bool,
    pub ignore_w2w3: u32,
    pub tof_counter: i64,
    pub adc0: i32,
    pub adc1: i32,
    pub adc2: i32,
    pub adc3: i32,
    /// Scratch: word2 (`Tof1`) or the first word of a 2-word record.
    pub word_a: u32,
}

/// Frame position after `word`: a framing word (top bit set) starts a
/// record; before the first one the position stays negative, so those
/// words are skipped.
pub open spec fn next_index(index: i32, word: u32) -> i32 {
    if word & 0x8000_0000 != 0 {
        0
    } else if 0 <= index < 4 {
        (index + 1) as i32
    } else {
        index
    }
}

/// Non-negative ADC values count towards the amplitude sum.
pub open spec fn pos_part(v: i32) -> int {
    if v >= 0 {
        v as int
    } else {
        0
    }
}

impl JumiomDecoder {
    pub open spec fn spec_mode(self) -> JumiomMode {
        self.mode
    }

    /// Position in the current record; negative before the first framing
    /// word.
    pub open spec fn spec_index(self) -> i32 {
        self.index
    }

    /// The decoder's state for a fresh stream in `mode`.
    pub open spec fn initial(mode: JumiomMode) -> JumiomDecoder {
        JumiomDecoder {
            mode,
            index: -1i32,
            xfpga: 0,
            yfpga: 0,
            gatebit: false,
            last_gatebit: false,
            bit31: false,
            ignore_w2w3: 0,
            tof_counter: 0,
            adc0: 0,
            adc1: 0,
            adc2: 0,
            adc3: 0,
            word_a: 0,
        }
    }

    /// The ranges the decoder's fields stay in.
    pub open spec fn wf(self) -> bool {
        -1 <= self.index <= 4 && 0 <= self.tof_counter <= u32::MAX && -256 <= self.adc0 < 256
            && -256 <= self.adc1 < 256 && -256 <= self.adc2 < 256 && -256 <= self.adc3 < 256
    }

    /// One `Tof1` word: the decoder's next state and the event it completes.
    pub open spec fn step_tof1(self, word: u32) -> (JumiomDecoder, Option<Event>) {
        let s = JumiomDecoder { index: next_index(self.index, word), ..self };
        if s.index == 0 {
            let g = word & 0x4000_0000 != 0;
            let s2 = JumiomDecoder {
                xfpga: (word & 0xFF) as u8,
                yfpga: ((word >> 8) & 0xFF) as u8,
                gatebit: g,
                bit31: word & 0x2000_0000 != 0,
                ignore_w2w3: word & 0x1800_0000,
                ..s
            };
            if g != s.last_gatebit {
                (
                    JumiomDecoder { last_gatebit: g, ..s2 },
                    Some(spec_new_event(EventType::Gate { up: g })),
                )
            } else {
                (s2, None)
            }
        } else if s.index == 1 {
            let counter: u32 = if s.bit31 {
                word | 0x8000_0000
            } else {
                word
            };
            let s2 = JumiomDecoder { tof_counter: counter as i64, ..s };
            let t = counter * NS_PER_TICK;
            if s.ignore_w2w3 & 0x1000_0000 != 0 {
                (s2, Some(with_rel(spec_new_event(EventType::Monitor { num: 0 }), t as i64)))
            } else if s.ignore_w2w3 & 0x0800_0000 != 0 {
                (s2, Some(with_rel(spec_new_event(EventType::Tzero), t as i64)))
            } else {
                (s2, None)
            }
        } else if s.index == 2 {
            if s.ignore_w2w3 == 0 {
                (
                    JumiomDecoder {
                        word_a: word,
                        adc0: spec_adc12(word, 0) >> 3,
                        adc1: spec_adc12(word, 16) >> 3,
                        ..s
                    },
                    None,
                )
            } else {
                (s, None)
            }
        } else if s.index == 3 {
            if s.ignore_w2w3 != 0 {
                (s, None)
            } else {
                let s2 = JumiomDecoder {
                    adc2: spec_adc12(word, 0) >> 3,
                    adc3: spec_adc12(word, 16) >> 3,
                    ..s
                };
                let sum = pos_part(s2.adc0) + pos_part(s2.adc1) + pos_part(s2.adc2) + pos_part(
                    s2.adc3,
                );
                let channel = (s.yfpga as u32) * 256 + s.xfpga as u32;
                let ev = Event {
                    channel: crate::event::ChannelId(channel as u32),
                    ampl: crate::event::Amplitude((sum / 4) as u32),
                    raw: (s.word_a, word),
                    ..spec_new_event(EventType::Neutron)
                };
                (s2, Some(with_rel(ev, (s.tof_counter * NS_PER_TICK) as i64)))
            }
        } else {
            (s, None)
        }
    }

    /// One `Raw` or `Ramp` word: a two-word record whose four 8-bit channel
    /// values are averaged into one auxiliary-signal event.
    pub open spec fn step_two_word(self, word: u32, ramp: bool) -> (JumiomDecoder, Option<Event>) {
        let s = JumiomDecoder { index: next_index(self.index, word), ..self };
        if s.index == 0 {
            (JumiomDecoder { word_a: word, ..s }, None)
        } else if s.index == 1 {
            let w0 = s.word_a;
            let sum: u32 = if ramp {
                (((w0 & 0x7FFF_0000) >> 23) + ((w0 & 0x0000_7FFF) >> 7) + ((word & 0x7FFF_0000)
                    >> 23) + ((word & 0x0000_7FFF) >> 7)) as u32
            } else {
                (((w0 & 0x0000_0FF0) >> 4) + ((w0 & 0x0FF0_0000) >> 20) + ((word & 0x0000_0FF0)
                    >> 4) + ((word & 0x0FF0_0000) >> 20)) as u32
            };
            let ev = Event {
                ampl: crate::event::Amplitude(sum >> 2),
                raw: (w0, word),
                ..spec_new_event(EventType::AuxSignal { num: if ramp { 1 } else { 0 } })
            };
            (s, Some(ev))
        } else {
            (s, None)
        }
    }

    /// One word in the decoder's mode.
    pub open spec fn step(self, word: u32) -> (JumiomDecoder, Option<Event>) {
        match self.mode {
            JumiomMode::Tof1 => self.step_tof1(word),
            JumiomMode::Raw => self.step_two_word(word, false),
            JumiomMode::Ramp => self.step_two_word(word, true),
        }
    }

    /// The state after `words` and the events they complete, in order.
    pub open spec fn run(self, words: Seq<u32>) -> (JumiomDecoder, Seq<Event>)
        decreases words.len(),
    {
        if words.len() == 0 {
            (self, seq![])
        } else {
            let (s1, evs) = self.run(words.drop_last());
            let (s2, e) = s1.step(words.last());
            (s2, evs + opt_seq(e))
        }
    }

    /// Feeding words in two chunks gives the same state and, concatenated,
    /// the same events as feeding them at once.
    pub proof fn law_feed_in_chunks(self, a: Seq<u32>, b: Seq<u32>)
        ensures
            self.run(a + b).0 == self.run(a).0.run(b).0,
            self.run(a + b).1 == self.run(a).1 + self.run(a).0.run(b).1,
        decreases b.len(),
    {
        if b.len() == 0 {
            assert(a + b =~= a);
            assert(self.run(a).1 + seq![] =~= self.run(a).1);
        } else {
            self.law_feed_in_chunks(a, b.drop_last());
            assert((a + b).drop_last() =~= a + b.drop_last());
            assert((a + b).last() == b.last());
            let m = self.run(a).0;
            let (s1, e1) = m.run(b.drop_last());
            let (s2, e) = s1.step(b.last());
            assert(self.run(a).1 + (e1 + opt_seq(e)) =~= (self.run(a).1 + e1) + opt_seq(e));
        }
    }

    /// Each word completes at most one event.
    pub proof fn law_events_per_word(self, words: Seq<u32>)
        ensures
            self.run(words).1.len() <= 1 * words.len(),
        decreases words.len(),
    {
        if words.len() > 0 {
            self.law_events_per_word(words.drop_last());
        }
    }

    /// Before the first framing word (top bit set) the decoder skips
    /// every word: nothing changes and nothing comes out.
    pub proof fn law_unframed_words_skipped(self, words: Seq<u32>)
        requires
            self.spec_index() < 0,
            forall|i: int| 0 <= i < words.len() ==> #[trigger] words[i] & 0x8000_0000u32 == 0,
        ensures
            self.run(words).0 == self,
            self.run(words).1.len() == 0,
        decreases words.len(),
    {
        if words.len() > 0 {
            self.law_unframed_words_skipped(words.drop_last());
            assert(words.drop_last().len() < words.len());
            assert(words.last() & 0x8000_0000u32 == 0);
        }
    }

    /// A fresh decoder waits for a framing word.
    pub proof fn law_fresh_decoder_waits_for_framing(mode: JumiomMode)
        ensures
            JumiomDecoder::initial(mode).spec_index() < 0,
    {
    }

    proof fn lemma_step_wf(self, word: u32)
        requires
            self.wf(),
        ensures
            self.step(word).0.wf(),
            self.step(word).0.mode == self.mode,
    {
        let v0 = (word >> 0u32) & 0xFFF;
        let v16 = (word >> 16u32) & 0xFFF;
        assert(v0 <= 0xFFF && v16 <= 0xFFF) by (bit_vector)
            requires
                v0 == (word >> 0u32) & 0xFFF,
                v16 == (word >> 16u32) & 0xFFF,
        ;
        let a0 = spec_adc12(word, 0);
        let a16 = spec_adc12(word, 16);
        assert(-256 <= (a0 >> 3) < 256 && -256 <= (a16 >> 3) < 256) by (bit_vector)
            requires
                -2048 <= a0 < 2048,
                -2048 <= a16 < 2048,
        ;
    }

    /// A decoder for a fresh stream.
    pub fn new(mode: JumiomMode) -> (d: JumiomDecoder)
        ensures
            d.wf(),
            d == JumiomDecoder::initial(mode),
    {
        JumiomDecoder {
            mode,
            index: -1,
            xfpga: 0,
            yfpga: 0,
            gatebit: false,
            last_gatebit: false,
            bit31: false,
            ignore_w2w3: 0,
            tof_counter: 0,
            adc0: 0,
            adc1: 0,
            adc2: 0,
            adc3: 0,
            word_a: 0,
        }
    }

    fn advance_index(&mut self, word: u32)
        requires
            -1 <= old(self).index <= 4,
        ensures
            *final(self) == (JumiomDecoder { index: next_index(old(self).index, word), ..*old(self) }),
    {
        if word & 0x8000_0000 != 0 {
            self.index = 0;
        } else if 0 <= self.index && self.index < 4 {
            self.index = self.index + 1;
        }
    }

    fn feed_tof1(&mut self, word: u32) -> (r: Option<Event>)
        requires
            old(self).wf(),
        ensures
            (*final(self), r) == old(self).step_tof1(word),
    {
        self.advance_index(word);
        if self.index == 0 {
            self.xfpga = (word & 0xFF) as u8;
            self.yfpga = ((word >> 8) & 0xFF) as u8;
            self.gatebit = word & 0x4000_0000 != 0;
            self.bit31 = word & 0x2000_0000 != 0;
            self.ignore_w2w3 = word & 0x1800_0000;
            if self.gatebit != self.last_gatebit {
                self.last_gatebit = self.gatebit;
                Some(Event::new(EventType::Gate { up: self.gatebit }))
            } else {
                None
            }
        } else if self.index == 1 {
            let counter = if self.bit31 {
                word | 0x8000_0000
            } else {
                word
            };
            self.tof_counter = counter as i64;
            let rel_time = EventTime::from_ticks(NS_PER_TICK, self.tof_counter);
            if self.ignore_w2w3 & 0x1000_0000 != 0 {
                Some(Event::new(EventType::Monitor { num: 0 }).with_rel_time(rel_time))
            } else if self.ignore_w2w3 & 0x0800_0000 != 0 {
                Some(Event::new(EventType::Tzero).with_rel_time(rel_time))
            } else {
                None
            }
        } else if self.index == 2 {
            if self.ignore_w2w3 == 0 {
                self.word_a = word;
                self.adc0 = adc_scaled(word, 0);
                self.adc1 = adc_scaled(word, 16);
            }
            None
        } else if self.index == 3 {
            if self.ignore_w2w3 != 0 {
                return None;
            }
            let word2 = self.word_a;
            self.adc2 = adc_scaled(word, 0);
            self.adc3 = adc_scaled(word, 16);
            let mut sum: i32 = 0;
            if self.adc0 >= 0 {
                sum = sum + self.adc0;
            }
            if self.adc1 >= 0 {
                sum = sum + self.adc1;
            }
            if self.adc2 >= 0 {
                sum = sum + self.adc2;
            }
            if self.adc3 >= 0 {
                sum = sum + self.adc3;
            }
            let channel = (self.yfpga as u32) * 256 + self.xfpga as u32;
            Some(
                Event::new(EventType::Neutron).with_channel(channel).with_ampl(
                    (sum / 4) as u32,
                ).with_raw(word2, word).with_rel_time(
                    EventTime::from_ticks(NS_PER_TICK, self.tof_counter),
                ),
            )
        } else {
            None
        }
    }

    fn feed_two_word(&mut self, word: u32, ramp: bool) -> (r: Option<Event>)
        requires
            old(self).wf(),
        ensures
            (*final(self), r) == old(self).step_two_word(word, ramp),
    {
        self.advance_index(word);
        if self.index == 0 {
            self.word_a = word;
            None
        } else if self.index == 1 {
            let w0 = self.word_a;
            let sum: u32 = if ramp {
                let a = (w0 & 0x7FFF_0000) >> 23;
                let b = (w0 & 0x0000_7FFF) >> 7;
                let c = (word & 0x7FFF_0000) >> 23;
                let d = (word & 0x0000_7FFF) >> 7;
                assert(a <= 255 && b <= 255 && c <= 255 && d <= 255) by (bit_vector)
                    requires
                        a == (w0 & 0x7FFF_0000) >> 23,
                        b == (w0 & 0x0000_7FFF) >> 7,
                        c == (word & 0x7FFF_0000) >> 23,
                        d == (word & 0x0000_7FFF) >> 7,
                ;
                a + b + c + d
            } else {
                let a = (w0 & 0x0000_0FF0) >> 4;
                let b = (w0 & 0x0FF0_0000) >> 20;
                let c = (word & 0x0000_0FF0) >> 4;
                let d = (word & 0x0FF0_0000) >> 20;
                assert(a <= 255 && b <= 255 && c <= 255 && d <= 255) by (bit_vector)
                    requires
                        a == (w0 & 0x0000_0FF0) >> 4,
                        b == (w0 & 0x0FF0_0000) >> 20,
                        c == (word & 0x0000_0FF0) >> 4,
                        d == (word & 0x0FF0_0000) >> 20,
                ;
                a + b + c + d
            };
            let num: u8 = if ramp {
                1
            } else {
                0
            };
            Some(Event::new(EventType::AuxSignal { num }).with_ampl(sum >> 2).with_raw(w0, word))
        } else {
            None
        }
    }

    /// Decodes a chunk of 32-bit words, returning the events completed by
    /// this chunk (an event started in a previous chunk may complete here,
    /// and one started here may only complete in the next). Each word
    /// yields at most one event.
    pub fn feed(&mut self, words: &[u32]) -> (events: Vec<Event>)
        requires
            old(self).wf(),
        ensures
            final(self).wf(),
            (*final(self), events@) == old(self).run(words@),
            events@.len() <= words@.len(),
    {
        proof {
            self.law_events_per_word(words@);
        }
        let mut events: Vec<Event> = Vec::new();
        let mut i: usize = 0;
        let ghost start = *self;
        while i < words.len()
            invariant
                self.wf(),
                i <= words@.len(),
                (*self, events@) == start.run(words@.subrange(0, i as int)),
            decreases words@.len() - i,
        {
            let word = words[i];
            proof {
                    self.lemma_step_wf(word);
                assert(words@.subrange(0, i + 1).drop_last() =~= words@.subrange(0, i as int));
            }
            let ghost evs_before = events@;
            let e = match self.mode {
                JumiomMode::Tof1 => self.feed_tof1(word),
                JumiomMode::Raw => self.feed_two_word(word, false),
                JumiomMode::Ramp => self.feed_two_word(word, true),
            };
            match e {
                Some(ev) => {
                    events.push(ev);
                },
                None => {},
            }
            proof {
                assert(events@ =~= evs_before + opt_seq(e));
            }
            i = i + 1;
        }
        proof {
            assert(words@.subrange(0, words@.len() as int) =~= words@);
        }
        events
    }
}

} // verus!
