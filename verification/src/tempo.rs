//! Absolute UTC instants held as plain integers.

use vstd::prelude::*;

verus! {

/// An absolute UTC instant: whole seconds since the Unix epoch and the
/// nanoseconds within that second.
#[derive(Clone, Copy, Debug, PartialEq, Eq, Structural)]
pub struct Instante {
    pub segundos: i64,
    pub nanos: u32,
}

/// The ISO-8601 / RFC 3339 text (UTC, `Z` suffix, shortest lossless
/// fraction) of the instant `segundos`.`nanos`, or `None` where the calendar
/// library cannot represent it.
pub uninterp spec fn texto_iso8601(segundos: i64, nanos: u32) -> Option<Seq<u8>>;

/// First second of year 0000 and last second of year 9999: every instant in
/// between has a four-digit year.
pub const SEGUNDOS_MIN_TEXTO: i64 = -62_167_219_200;

pub const SEGUNDOS_MAX_TEXTO: i64 = 253_402_300_799;

pub const NANOS_POR_SEGUNDO: u32 = 1_000_000_000;

/// Whether the instant lies in years 0000..=9999 with a proper nanosecond
/// part; such instants always have a text form.
pub open spec fn tem_texto_garantido(segundos: i64, nanos: u32) -> bool {
    SEGUNDOS_MIN_TEXTO <= segundos <= SEGUNDOS_MAX_TEXTO && nanos < NANOS_POR_SEGUNDO
}

/// Calls `chrono::DateTime::from_timestamp` and formats the value with
/// `to_rfc3339_opts(SecondsFormat::AutoSi, true)`.
///
/// Trusted: the returned bytes are the fixed text of that instant, the call
/// fails exactly where chrono rejects the pair, and it never rejects an
/// instant of years 0000..=9999 whose nanoseconds are below one second.
#[verifier::external_body]
pub(crate) fn formatar_iso8601(segundos: i64, nanos: u32) -> (r: Option<Vec<u8>>)
    ensures
        r.is_some() == texto_iso8601(segundos, nanos).is_some(),
        r matches Some(v) ==> texto_iso8601(segundos, nanos) == Some(v@),
        tem_texto_garantido(segundos, nanos) ==> r.is_some(),
{
    match chrono::DateTime::from_timestamp(segundos, nanos) {
        Some(data) => Some(data.to_rfc3339_opts(chrono::SecondsFormat::AutoSi, true).into_bytes()),
        None => None,
    }
}

impl Instante {
    pub fn new(segundos: i64, nanos: u32) -> (r: Instante)
        ensures
            r.segundos == segundos,
            r.nanos == nanos,
    {
        Instante { segundos, nanos }
    }

    /// Strict chronological order: by seconds, then by nanoseconds.
    pub open spec fn antes_de(self, outro: Instante) -> bool {
        self.segundos < outro.segundos || (self.segundos == outro.segundos && self.nanos
            < outro.nanos)
    }

    /// The instant `delta` seconds away, clamped to the representable range.
    pub open spec fn deslocado(self, delta: int) -> Instante {
        let s = self.segundos + delta;
        Instante {
            segundos: if s > i64::MAX {
                i64::MAX
            } else if s < i64::MIN {
                i64::MIN
            } else {
                s as i64
            },
            nanos: self.nanos,
        }
    }

    /// Whether `self` is strictly earlier than `outro`.
    pub fn anterior_a(&self, outro: &Instante) -> (r: bool)
        ensures
            r == self.antes_de(*outro),
    {
        self.segundos < outro.segundos || (self.segundos == outro.segundos && self.nanos
            < outro.nanos)
    }

    /// Whether `self` is strictly later than `outro`.
    pub fn posterior_a(&self, outro: &Instante) -> (r: bool)
        ensures
            r == outro.antes_de(*self),
    {
        outro.anterior_a(self)
    }

    /// Moves the instant by `delta` seconds, saturating at the ends of `i64`.
    pub fn mais_segundos(&self, delta: i64) -> (r: Instante)
        ensures
            r == self.deslocado(delta as int),
    {
        let segundos = match self.segundos.checked_add(delta) {
            Some(s) => s,
            None => if delta > 0 {
                i64::MAX
            } else {
                i64::MIN
            },
        };
        Instante { segundos, nanos: self.nanos }
    }

    /// Moves the instant back by `delta` seconds, saturating at the ends of
    /// `i64`.
    pub fn menos_segundos(&self, delta: i64) -> (r: Instante)
        ensures
            r == self.deslocado(-delta),
    {
        let segundos = match self.segundos.checked_sub(delta) {
            Some(s) => s,
            None => if delta > 0 {
                i64::MIN
            } else {
                i64::MAX
            },
        };
        Instante { segundos, nanos: self.nanos }
    }

    /// The ISO-8601 text of the instant as bytes, `None` outside the calendar.
    pub fn para_iso8601(&self) -> (r: Option<Vec<u8>>)
        ensures
            r.is_some() == texto_iso8601(self.segundos, self.nanos).is_some(),
            r matches Some(v) ==> texto_iso8601(self.segundos, self.nanos) == Some(v@),
            tem_texto_garantido(self.segundos, self.nanos) ==> r.is_some(),
    {
        formatar_iso8601(self.segundos, self.nanos)
    }
}

} // verus!
