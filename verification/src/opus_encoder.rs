use vstd::prelude::*;

verus! {

/// How the Opus codec spends its bit budget.
#[derive(Clone, Copy, PartialEq, Eq, Structural)]
pub enum OpusEncodingMode {
    Cbr,
    Vbr,
}

/// The abstract state of an [`OpusEncoder`]: its three settings.
pub struct EncoderSettings {
    pub bitrate: i32,
    pub mode: OpusEncodingMode,
    pub vbr_quality: i32,
}

/// The quality value that `set_vbr_quality` keeps: `q` clamped to `0..=10`.
pub open spec fn clamp_quality(q: i32) -> i32 {
    if q < 0 {
        0
    } else if q > 10 {
        10
    } else {
        q
    }
}

/// Settings of the Opus encoder used to compress recordings.
pub struct OpusEncoder {
    bitrate: i32,
    mode: OpusEncodingMode,
    vbr_quality: i32,
}

impl View for OpusEncoder {
    type V = EncoderSettings;

    closed spec fn view(&self) -> EncoderSettings {
        EncoderSettings { bitrate: self.bitrate, mode: self.mode, vbr_quality: self.vbr_quality }
    }
}

impl OpusEncoder {
    /// The VBR quality always lies in `0..=10`.
    #[verifier::type_invariant]
    spec fn quality_in_range(&self) -> bool {
        0 <= self.vbr_quality <= 10
    }

    /// 12 kbps, constant bitrate, quality 5.
    pub fn new() -> (r: Self)
        ensures
            r@ == (EncoderSettings { bitrate: 12000, mode: OpusEncodingMode::Cbr, vbr_quality: 5 }),
    {
        OpusEncoder { bitrate: 12000, mode: OpusEncodingMode::Cbr, vbr_quality: 5 }
    }

    pub fn set_bitrate(&mut self, bitrate: i32)
        ensures
            final(self)@ == (EncoderSettings { bitrate, ..old(self)@ }),
    {
        proof {
            use_type_invariant(&*self);
        }
        self.bitrate = bitrate;
    }

    pub fn get_bitrate(&self) -> (r: i32)
        ensures
            r == self@.bitrate,
    {
        self.bitrate
    }

    pub fn set_mode(&mut self, mode: OpusEncodingMode)
        ensures
            final(self)@ == (EncoderSettings { mode, ..old(self)@ }),
    {
        proof {
            use_type_invariant(&*self);
        }
        self.mode = mode;
    }

    pub fn get_mode(&self) -> (r: OpusEncodingMode)
        ensures
            r == self@.mode,
    {
        self.mode
    }

    /// Stores `quality` clamped to `0..=10`.
    pub fn set_vbr_quality(&mut self, quality: i32)
        ensures
            final(self)@ == (EncoderSettings { vbr_quality: clamp_quality(quality), ..old(self)@ }),
    {
        let q = if quality < 0 {
            0
        } else if quality > 10 {
            10
        } else {
            quality
        };
        self.vbr_quality = q;
    }

    pub fn get_vbr_quality(&self) -> (r: i32)
        ensures
            r == self@.vbr_quality,
            0 <= r <= 10,
    {
        proof {
            use_type_invariant(self);
        }
        self.vbr_quality
    }
}


impl Clone for OpusEncoder {
    fn clone(&self) -> (r: Self)
        ensures
            r@ == self@,
    {
        proof {
            use_type_invariant(self);
        }
        OpusEncoder { bitrate: self.bitrate, mode: self.mode, vbr_quality: self.vbr_quality }
    }
}

/// Law: each setter changes its own setting only, and the matching getter
/// then reads back what was set (the VBR quality clamped to `0..=10`, which
/// keeps a value already in range).
pub proof fn lemma_setters_round_trip(s: EncoderSettings, bitrate: i32, mode: OpusEncodingMode, quality: i32)
    ensures
        (EncoderSettings { bitrate, ..s }).bitrate == bitrate,
        (EncoderSettings { bitrate, ..s }).mode == s.mode,
        (EncoderSettings { bitrate, ..s }).vbr_quality == s.vbr_quality,
        (EncoderSettings { mode, ..s }).mode == mode,
        (EncoderSettings { mode, ..s }).bitrate == s.bitrate,
        (EncoderSettings { mode, ..s }).vbr_quality == s.vbr_quality,
        (EncoderSettings { vbr_quality: clamp_quality(quality), ..s }).vbr_quality == clamp_quality(
            quality,
        ),
        (EncoderSettings { vbr_quality: clamp_quality(quality), ..s }).bitrate == s.bitrate,
        (EncoderSettings { vbr_quality: clamp_quality(quality), ..s }).mode == s.mode,
        0 <= clamp_quality(quality) <= 10,
        0 <= quality <= 10 ==> clamp_quality(quality) == quality,
        clamp_quality(clamp_quality(quality)) == clamp_quality(quality),
{
}

/// The settings handed to the Opus codec before encoding.
#[derive(Clone, Copy, PartialEq, Eq, Structural)]
pub struct CodecSettings {
    pub bitrate_bps: i32,
    pub use_cbr: bool,
    pub complexity: i32,
}

impl OpusEncoder {
    /// Printable name of the encoding mode.
    pub fn mode_name(&self) -> (r: &'static str)
        ensures
            r@ == (match self@.mode {
                OpusEncodingMode::Cbr => "CBR"@,
                OpusEncodingMode::Vbr => "VBR"@,
            }),
    {
        match self.mode {
            OpusEncodingMode::Cbr => "CBR",
            OpusEncodingMode::Vbr => "VBR",
        }
    }

    /// The codec configuration these settings stand for: the target bitrate,
    /// constant bitrate exactly in CBR mode, and the VBR quality as the
    /// codec's complexity.
    pub fn codec_settings(&self) -> (r: CodecSettings)
        ensures
            r.bitrate_bps == self@.bitrate,
            r.use_cbr == (self@.mode == OpusEncodingMode::Cbr),
            r.complexity == self@.vbr_quality,
            0 <= r.complexity <= 10,
    {
        proof {
            use_type_invariant(self);
        }
        let use_cbr = match self.mode {
            OpusEncodingMode::Cbr => true,
            OpusEncodingMode::Vbr => false,
        };
        CodecSettings { bitrate_bps: self.bitrate, use_cbr, complexity: self.vbr_quality }
    }
}

} // verus!
