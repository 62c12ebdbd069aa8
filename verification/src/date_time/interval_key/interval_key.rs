//! A key of a calendar slot whose kind is fixed by a type parameter.
use std::marker::PhantomData;
use std::time::Duration;

use super::date_time_interval::DateTimeInterval;
use super::interval_key_option::{
    DayKey, Hour2Key, Hour4Key, HourKey, IntervalKeyOption, Minute15Key, Minute30Key, Minute5Key,
    MinuteKey, MonthKey, YearKey,
};
use crate::date_time::as_microseconds::DateTimeAsMicroseconds;
use crate::date_time::date_time_struct::date_time_struct_of;
use crate::date_time::duration_units::duration_micros;
use vstd::prelude::*;

verus! {

/// A key of the kind `TOption`: an integer whose numeric order is the order of time.
#[derive(Copy, PartialEq, Eq, PartialOrd, Ord, Hash, Debug)]
pub struct IntervalKey<TOption: IntervalKeyOption> {
    value: i64,
    _phantom: PhantomData<TOption>,
}

impl<TOption: IntervalKeyOption> Clone for IntervalKey<TOption> {
    fn clone(&self) -> (r: Self)
        ensures
            r == *self,
    {
        *self
    }
}

impl<TOption: IntervalKeyOption> View for IntervalKey<TOption> {
    type V = i64;

    /// The key as an integer.
    closed spec fn view(&self) -> i64 {
        self.value
    }
}

impl<TOption: IntervalKeyOption> IntervalKey<TOption> {
    /// The key of the slot an instant falls in.
    pub fn new(src: DateTimeAsMicroseconds) -> (r: Self)
        requires
            TOption::has_key(src.unix_microseconds as int),
        ensures
            r@ == TOption::key_value(src.unix_microseconds as int),
    {
        Self { value: TOption::to_value(src), _phantom: PhantomData }
    }

    /// Takes a raw integer as a key, without validation: off-slot values are cut to the
    /// slot start when they are decoded.
    pub fn from_i64(value: i64) -> (r: Self)
        ensures
            r@ == value,
    {
        Self { value, _phantom: PhantomData }
    }

    pub fn to_i64(&self) -> (r: i64)
        ensures
            r == self@,
    {
        self.value
    }

    pub fn as_i64_ref(&self) -> (r: &i64)
        ensures
            *r == self@,
    {
        &self.value
    }

    pub fn to_dt_interval(&self) -> (r: DateTimeInterval)
        ensures
            r == TOption::interval_of(self@),
    {
        TOption::to_dt_interval(self.value)
    }

    /// The key of the slot start moved `duration` later: not slot aware, so a duration
    /// shorter than the slot may give the same key back.
    pub fn add(&self, duration: Duration) -> (r: Self)
        requires
            TOption::decodable(self@ as int),
            TOption::slot_start(self@ as int) matches Some(d) && duration_micros(duration)
                <= i64::MAX && d.unix_microseconds + duration_micros(duration) <= i64::MAX
                && TOption::has_key(d.unix_microseconds + duration_micros(duration)),
        ensures
            r@ == TOption::key_value(
                TOption::slot_start(self@ as int)->0.unix_microseconds + duration_micros(duration),
            ),
    {
        let dt = TOption::to_date_time(self.value).unwrap();
        let dt = dt.add(duration);
        Self { value: TOption::to_value(dt), _phantom: PhantomData }
    }

    /// The key of the slot start moved `duration` earlier (not slot aware either).
    pub fn sub(&self, duration: Duration) -> (r: Self)
        requires
            TOption::decodable(self@ as int),
            TOption::slot_start(self@ as int) matches Some(d) && duration_micros(duration)
                <= i64::MAX && i64::MIN <= d.unix_microseconds - duration_micros(duration)
                && TOption::has_key(d.unix_microseconds - duration_micros(duration)),
        ensures
            r@ == TOption::key_value(
                TOption::slot_start(self@ as int)->0.unix_microseconds - duration_micros(duration),
            ),
    {
        let dt = TOption::to_date_time(self.value).unwrap();
        let dt = dt.sub(duration);
        Self { value: TOption::to_value(dt), _phantom: PhantomData }
    }

    /// The start of the slot the key names; an error when it names none.
    pub fn try_to_date_time(&self) -> (r: Result<DateTimeAsMicroseconds, String>)
        requires
            TOption::decodable(self@ as int),
        ensures
            match r {
                Ok(d) => TOption::slot_start(self@ as int) == Some(d),
                Err(_) => TOption::slot_start(self@ as int) is None,
            },
    {
        TOption::to_date_time(self.value)
    }
}

/// A key taken of an instant and moved later by a duration (what `add` does) is never
/// smaller: the moved slot start lies no earlier than the slot start, whose key is the key.
pub proof fn law_add_does_not_go_back<TOption: IntervalKeyOption>(t: i64, later: i64)
    requires
        TOption::has_key(t as int),
        date_time_struct_of(t as int).year >= 0,
        TOption::slot_start(TOption::key_value(t as int)) matches Some(d) && d.unix_microseconds
            <= later,
    ensures
        TOption::key_value(later as int) >= TOption::key_value(t as int),
{
    TOption::lemma_key_round_trip(t);
    let d = TOption::slot_start(TOption::key_value(t as int))->0;
    TOption::lemma_key_order(d.unix_microseconds, later);
}

/// For every kind of key, keys keep the order of time.
pub proof fn law_keys_keep_time_order<TOption: IntervalKeyOption>(t1: i64, t2: i64)
    requires
        TOption::has_key(t1 as int),
        t1 <= t2,
    ensures
        TOption::key_value(t1 as int) <= TOption::key_value(t2 as int),
{
    TOption::lemma_key_order(t1, t2);
}

/// For every kind of key, the key of an instant decodes to the start of its slot, no later
/// than the instant, and encoding that start again gives the key back.
pub proof fn law_decoded_key_encodes_back<TOption: IntervalKeyOption>(t: i64)
    requires
        TOption::has_key(t as int),
        date_time_struct_of(t as int).year >= 0,
    ensures
        TOption::decodable(TOption::key_value(t as int)),
        TOption::slot_start(TOption::key_value(t as int)) matches Some(s) && s.unix_microseconds
            <= t && TOption::has_key(s.unix_microseconds as int) && TOption::key_value(
            s.unix_microseconds as int,
        ) == TOption::key_value(t as int),
{
    TOption::lemma_key_round_trip(t);
}

/// For every kind of key, the key of an instant taken as a `DateTimeInterval` of that kind
/// (what `DateTimeInterval::from_dt_to_*` give) decodes to the start of the instant's slot:
/// no later than the instant, less than a slot width before it for the kinds of one width,
/// and with the same key.
pub proof fn law_interval_decodes_to_the_slot<TOption: IntervalKeyOption>(t: i64, key: i64)
    requires
        TOption::has_key(t as int),
        date_time_struct_of(t as int).year >= 0,
        key == TOption::key_value(t as int),
    ensures
        TOption::interval_of(key).decodable(),
        TOption::interval_of(key).slot_start() matches Some(d) && d.unix_microseconds <= t
            && TOption::has_key(d.unix_microseconds as int) && TOption::key_value(
            d.unix_microseconds as int,
        ) == key && (TOption::slot_width() > 0 ==> t < d.unix_microseconds
            + TOption::slot_width()),
{
    TOption::lemma_key_round_trip(t);
    TOption::lemma_interval_decodes_alike(key);
}

/// The start a key decodes to is the first instant of its slot: every instant with the same
/// key comes no earlier.
pub proof fn law_slot_start_is_first<TOption: IntervalKeyOption>(t: i64, u: i64)
    requires
        TOption::has_key(t as int),
        TOption::has_key(u as int),
        date_time_struct_of(t as int).year >= 0,
        date_time_struct_of(u as int).year >= 0,
        TOption::key_value(u as int) == TOption::key_value(t as int),
    ensures
        TOption::slot_start(TOption::key_value(t as int)) matches Some(s) && s.unix_microseconds
            <= u,
{
    TOption::lemma_key_round_trip(t);
    TOption::lemma_key_round_trip(u);
}

/// Two points of one grid of step `w` that are less than a step apart are the same point.
proof fn lemma_grid_points_meet(a: int, b: int, phase: int, w: int)
    requires
        w > 0,
        (a - phase) % w == 0,
        (b - phase) % w == 0,
        a - w < b < a + w,
    ensures
        a == b,
{
    vstd::arithmetic::div_mod::lemma_fundamental_div_mod(a - phase, w);
    vstd::arithmetic::div_mod::lemma_fundamental_div_mod(b - phase, w);
    let qa = (a - phase) / w;
    let qb = (b - phase) / w;
    assert(a - b == (qa - qb) * w) by (nonlinear_arith)
        requires
            a - phase == w * qa,
            b - phase == w * qb,
    ;
    if qa > qb {
        assert((qa - qb) * w >= w) by (nonlinear_arith)
            requires
                qa - qb >= 1,
                w > 0,
        ;
    } else if qa < qb {
        assert((qb - qa) * w >= w) by (nonlinear_arith)
            requires
                qb - qa >= 1,
                w > 0,
        ;
        assert((qa - qb) * w == -((qb - qa) * w)) by (nonlinear_arith);
    } else {
        assert((qa - qb) * w == 0) by (nonlinear_arith)
            requires
                qa == qb,
        ;
    }
}

/// For the kinds whose slots all have one width: moving the start of an instant's slot later
/// by less than that width stays in the slot, so the key stays the same. This is what `add`
/// computes for a duration shorter than a slot: it gives the key back.
pub proof fn law_add_within_slot_keeps_key<TOption: IntervalKeyOption>(t: i64, shift: int)
    requires
        TOption::has_key(t as int),
        date_time_struct_of(t as int).year >= 0,
        0 <= shift < TOption::slot_width(),
        TOption::slot_start(TOption::key_value(t as int)) matches Some(d) && d.unix_microseconds
            + shift <= i64::MAX && TOption::has_key(d.unix_microseconds + shift)
            && date_time_struct_of(d.unix_microseconds + shift).year >= 0,
    ensures
        TOption::key_value(
            TOption::slot_start(TOption::key_value(t as int))->0.unix_microseconds + shift,
        ) == TOption::key_value(t as int),
{
    TOption::lemma_key_round_trip(t);
    let d = TOption::slot_start(TOption::key_value(t as int))->0;
    let u = (d.unix_microseconds + shift) as i64;
    TOption::lemma_key_round_trip(u);
    let e = TOption::slot_start(TOption::key_value(u as int))->0;
    lemma_grid_points_meet(
        d.unix_microseconds as int,
        e.unix_microseconds as int,
        TOption::slot_phase(),
        TOption::slot_width(),
    );
}

/// For the kinds whose slots all have one width: moving the start of an instant's slot later
/// by exactly that width lands on the start of the next slot. The key there decodes to that
/// instant and is larger than the key. This is what `add` computes for a duration of one slot.
pub proof fn law_add_full_slot_moves_one_slot<TOption: IntervalKeyOption>(t: i64)
    requires
        TOption::has_key(t as int),
        date_time_struct_of(t as int).year >= 0,
        TOption::slot_width() > 0,
        TOption::slot_start(TOption::key_value(t as int)) matches Some(d) && d.unix_microseconds
            + TOption::slot_width() <= i64::MAX && TOption::has_key(
            d.unix_microseconds + TOption::slot_width(),
        ) && date_time_struct_of(d.unix_microseconds + TOption::slot_width()).year >= 0,
    ensures
        ({
            let next = TOption::slot_start(TOption::key_value(t as int))->0.unix_microseconds
                + TOption::slot_width();
            &&& TOption::decodable(TOption::key_value(next))
            &&& TOption::slot_start(TOption::key_value(next)) == Some(
                DateTimeAsMicroseconds { unix_microseconds: next as i64 },
            )
            &&& TOption::key_value(next) > TOption::key_value(t as int)
        }),
{
    let w = TOption::slot_width();
    let phase = TOption::slot_phase();
    TOption::lemma_key_round_trip(t);
    let d = TOption::slot_start(TOption::key_value(t as int))->0;
    let u = (d.unix_microseconds + w) as i64;
    TOption::lemma_key_round_trip(u);
    let e = TOption::slot_start(TOption::key_value(u as int))->0;
    vstd::arithmetic::div_mod::lemma_fundamental_div_mod(d.unix_microseconds - phase, w);
    let q = (d.unix_microseconds - phase) / w;
    assert(u - phase == (q + 1) * w) by (nonlinear_arith)
        requires
            d.unix_microseconds - phase == w * q + 0,
            u == d.unix_microseconds + w,
    ;
    vstd::arithmetic::div_mod::lemma_fundamental_div_mod_converse(
        u - phase,
        w,
        q + 1,
        0,
    );
    lemma_grid_points_meet(u as int, e.unix_microseconds as int, phase, w);
    TOption::lemma_key_order(t, u);
}

impl<TOption: IntervalKeyOption> From<i64> for IntervalKey<TOption> {
    /// A raw key: the integer itself.
    fn from(v: i64) -> (r: Self) {
        Self::from_i64(v)
    }
}

impl<TOption: IntervalKeyOption> vstd::std_specs::convert::FromSpecImpl<i64> for IntervalKey<TOption> {
    open spec fn obeys_from_spec() -> bool {
        true
    }

    closed spec fn from_spec(v: i64) -> Self {
        IntervalKey { value: v, _phantom: PhantomData }
    }
}

impl<TOption: IntervalKeyOption> From<&i64> for IntervalKey<TOption> {
    /// A raw key: the integer itself.
    fn from(v: &i64) -> (r: Self) {
        Self::from_i64(*v)
    }
}

impl<TOption: IntervalKeyOption> vstd::std_specs::convert::FromSpecImpl<&i64> for IntervalKey<TOption> {
    open spec fn obeys_from_spec() -> bool {
        true
    }

    closed spec fn from_spec(v: &i64) -> Self {
        IntervalKey { value: *v, _phantom: PhantomData }
    }
}

impl<TOption: IntervalKeyOption> From<u64> for IntervalKey<TOption> {
    /// A raw key: the `i64` with the same bits.
    fn from(v: u64) -> (r: Self) {
        Self::from_i64(v as i64)
    }
}

impl<TOption: IntervalKeyOption> vstd::std_specs::convert::FromSpecImpl<u64> for IntervalKey<TOption> {
    open spec fn obeys_from_spec() -> bool {
        true
    }

    closed spec fn from_spec(v: u64) -> Self {
        IntervalKey { value: v as i64, _phantom: PhantomData }
    }
}

impl<TOption: IntervalKeyOption> From<&u64> for IntervalKey<TOption> {
    /// A raw key: the `i64` with the same bits.
    fn from(v: &u64) -> (r: Self) {
        Self::from_i64(*v as i64)
    }
}

impl<TOption: IntervalKeyOption> vstd::std_specs::convert::FromSpecImpl<&u64> for IntervalKey<TOption> {
    open spec fn obeys_from_spec() -> bool {
        true
    }

    closed spec fn from_spec(v: &u64) -> Self {
        IntervalKey { value: *v as i64, _phantom: PhantomData }
    }
}

impl From<DateTimeAsMicroseconds> for IntervalKey<YearKey> {
    /// The key of the slot an instant falls in.
    fn from(v: DateTimeAsMicroseconds) -> (r: Self) {
        Self::new(v)
    }
}

impl vstd::std_specs::convert::FromSpecImpl<DateTimeAsMicroseconds> for IntervalKey<YearKey> {
    open spec fn obeys_from_spec() -> bool {
        true
    }

    closed spec fn from_spec(v: DateTimeAsMicroseconds) -> Self {
        IntervalKey { value: YearKey::key_value(v.unix_microseconds as int) as i64, _phantom: PhantomData }
    }
}

impl From<DateTimeAsMicroseconds> for IntervalKey<MonthKey> {
    /// The key of the slot an instant falls in.
    fn from(v: DateTimeAsMicroseconds) -> (r: Self) {
        Self::new(v)
    }
}

impl vstd::std_specs::convert::FromSpecImpl<DateTimeAsMicroseconds> for IntervalKey<MonthKey> {
    open spec fn obeys_from_spec() -> bool {
        true
    }

    closed spec fn from_spec(v: DateTimeAsMicroseconds) -> Self {
        IntervalKey { value: MonthKey::key_value(v.unix_microseconds as int) as i64, _phantom: PhantomData }
    }
}

impl From<DateTimeAsMicroseconds> for IntervalKey<DayKey> {
    /// The key of the slot an instant falls in.
    fn from(v: DateTimeAsMicroseconds) -> (r: Self) {
        Self::new(v)
    }
}

impl vstd::std_specs::convert::FromSpecImpl<DateTimeAsMicroseconds> for IntervalKey<DayKey> {
    open spec fn obeys_from_spec() -> bool {
        true
    }

    closed spec fn from_spec(v: DateTimeAsMicroseconds) -> Self {
        IntervalKey { value: DayKey::key_value(v.unix_microseconds as int) as i64, _phantom: PhantomData }
    }
}

impl From<DateTimeAsMicroseconds> for IntervalKey<HourKey> {
    /// The key of the slot an instant falls in.
    fn from(v: DateTimeAsMicroseconds) -> (r: Self) {
        Self::new(v)
    }
}

impl vstd::std_specs::convert::FromSpecImpl<DateTimeAsMicroseconds> for IntervalKey<HourKey> {
    open spec fn obeys_from_spec() -> bool {
        true
    }

    closed spec fn from_spec(v: DateTimeAsMicroseconds) -> Self {
        IntervalKey { value: HourKey::key_value(v.unix_microseconds as int) as i64, _phantom: PhantomData }
    }
}

impl From<DateTimeAsMicroseconds> for IntervalKey<Hour2Key> {
    /// The key of the slot an instant falls in.
    fn from(v: DateTimeAsMicroseconds) -> (r: Self) {
        Self::new(v)
    }
}

impl vstd::std_specs::convert::FromSpecImpl<DateTimeAsMicroseconds> for IntervalKey<Hour2Key> {
    open spec fn obeys_from_spec() -> bool {
        true
    }

    closed spec fn from_spec(v: DateTimeAsMicroseconds) -> Self {
        IntervalKey { value: Hour2Key::key_value(v.unix_microseconds as int) as i64, _phantom: PhantomData }
    }
}

impl From<DateTimeAsMicroseconds> for IntervalKey<Hour4Key> {
    /// The key of the slot an instant falls in.
    fn from(v: DateTimeAsMicroseconds) -> (r: Self) {
        Self::new(v)
    }
}

impl vstd::std_specs::convert::FromSpecImpl<DateTimeAsMicroseconds> for IntervalKey<Hour4Key> {
    open spec fn obeys_from_spec() -> bool {
        true
    }

    closed spec fn from_spec(v: DateTimeAsMicroseconds) -> Self {
        IntervalKey { value: Hour4Key::key_value(v.unix_microseconds as int) as i64, _phantom: PhantomData }
    }
}

impl From<DateTimeAsMicroseconds> for IntervalKey<MinuteKey> {
    /// The key of the slot an instant falls in.
    fn from(v: DateTimeAsMicroseconds) -> (r: Self) {
        Self::new(v)
    }
}

impl vstd::std_specs::convert::FromSpecImpl<DateTimeAsMicroseconds> for IntervalKey<MinuteKey> {
    open spec fn obeys_from_spec() -> bool {
        true
    }

    closed spec fn from_spec(v: DateTimeAsMicroseconds) -> Self {
        IntervalKey { value: MinuteKey::key_value(v.unix_microseconds as int) as i64, _phantom: PhantomData }
    }
}

impl From<DateTimeAsMicroseconds> for IntervalKey<Minute5Key> {
    /// The key of the slot an instant falls in.
    fn from(v: DateTimeAsMicroseconds) -> (r: Self) {
        Self::new(v)
    }
}

impl vstd::std_specs::convert::FromSpecImpl<DateTimeAsMicroseconds> for IntervalKey<Minute5Key> {
    open spec fn obeys_from_spec() -> bool {
        true
    }

    closed spec fn from_spec(v: DateTimeAsMicroseconds) -> Self {
        IntervalKey { value: Minute5Key::key_value(v.unix_microseconds as int) as i64, _phantom: PhantomData }
    }
}

impl From<DateTimeAsMicroseconds> for IntervalKey<Minute15Key> {
    /// The key of the slot an instant falls in.
    fn from(v: DateTimeAsMicroseconds) -> (r: Self) {
        Self::new(v)
    }
}

impl vstd::std_specs::convert::FromSpecImpl<DateTimeAsMicroseconds> for IntervalKey<Minute15Key> {
    open spec fn obeys_from_spec() -> bool {
        true
    }

    closed spec fn from_spec(v: DateTimeAsMicroseconds) -> Self {
        IntervalKey { value: Minute15Key::key_value(v.unix_microseconds as int) as i64, _phantom: PhantomData }
    }
}

impl From<DateTimeAsMicroseconds> for IntervalKey<Minute30Key> {
    /// The key of the slot an instant falls in.
    fn from(v: DateTimeAsMicroseconds) -> (r: Self) {
        Self::new(v)
    }
}

impl vstd::std_specs::convert::FromSpecImpl<DateTimeAsMicroseconds> for IntervalKey<Minute30Key> {
    open spec fn obeys_from_spec() -> bool {
        true
    }

    closed spec fn from_spec(v: DateTimeAsMicroseconds) -> Self {
        IntervalKey { value: Minute30Key::key_value(v.unix_microseconds as int) as i64, _phantom: PhantomData }
    }
}

impl TryFrom<IntervalKey<MinuteKey>> for IntervalKey<Minute5Key> {
    type Error = String;

    /// The key of this kind of the slot start of `v`.
    fn try_from(v: IntervalKey<MinuteKey>) -> (r: Result<Self, String>)
        ensures
            match r {
                Ok(k) => MinuteKey::slot_start(v@ as int) matches Some(d) && k@ == Minute5Key::key_value(
                    d.unix_microseconds as int,
                ),
                Err(_) => MinuteKey::slot_start(v@ as int) is None,
            },
    {
        let dt = v.try_to_date_time()?;
        Ok(Self::new(dt))
    }
}

impl vstd::std_specs::convert::TryFromSpecImpl<IntervalKey<MinuteKey>> for IntervalKey<Minute5Key> {
    /// The error text is not stated here: `try_from` says what it returns.
    open spec fn obeys_try_from_spec() -> bool {
        false
    }

    closed spec fn try_from_spec(v: IntervalKey<MinuteKey>) -> Result<Self, String> {
        match MinuteKey::slot_start(v@ as int) {
            Some(d) => Ok(
                IntervalKey {
                    value: Minute5Key::key_value(d.unix_microseconds as int) as i64,
                    _phantom: PhantomData,
                },
            ),
            None => Err(arbitrary()),
        }
    }
}

impl TryFrom<IntervalKey<Minute5Key>> for IntervalKey<MinuteKey> {
    type Error = String;

    /// The key of this kind of the slot start of `v`.
    fn try_from(v: IntervalKey<Minute5Key>) -> (r: Result<Self, String>)
        ensures
            match r {
                Ok(k) => Minute5Key::slot_start(v@ as int) matches Some(d) && k@ == MinuteKey::key_value(
                    d.unix_microseconds as int,
                ),
                Err(_) => Minute5Key::slot_start(v@ as int) is None,
            },
    {
        let dt = v.try_to_date_time()?;
        Ok(Self::new(dt))
    }
}

impl vstd::std_specs::convert::TryFromSpecImpl<IntervalKey<Minute5Key>> for IntervalKey<MinuteKey> {
    /// The error text is not stated here: `try_from` says what it returns.
    open spec fn obeys_try_from_spec() -> bool {
        false
    }

    closed spec fn try_from_spec(v: IntervalKey<Minute5Key>) -> Result<Self, String> {
        match Minute5Key::slot_start(v@ as int) {
            Some(d) => Ok(
                IntervalKey {
                    value: MinuteKey::key_value(d.unix_microseconds as int) as i64,
                    _phantom: PhantomData,
                },
            ),
            None => Err(arbitrary()),
        }
    }
}

impl TryFrom<IntervalKey<MinuteKey>> for IntervalKey<Minute15Key> {
    type Error = String;

    /// The key of this kind of the slot start of `v`.
    fn try_from(v: IntervalKey<MinuteKey>) -> (r: Result<Self, String>)
        ensures
            match r {
                Ok(k) => MinuteKey::slot_start(v@ as int) matches Some(d) && k@ == Minute15Key::key_value(
                    d.unix_microseconds as int,
                ),
                Err(_) => MinuteKey::slot_start(v@ as int) is None,
            },
    {
        let dt = v.try_to_date_time()?;
        Ok(Self::new(dt))
    }
}

impl vstd::std_specs::convert::TryFromSpecImpl<IntervalKey<MinuteKey>> for IntervalKey<Minute15Key> {
    /// The error text is not stated here: `try_from` says what it returns.
    open spec fn obeys_try_from_spec() -> bool {
        false
    }

    closed spec fn try_from_spec(v: IntervalKey<MinuteKey>) -> Result<Self, String> {
        match MinuteKey::slot_start(v@ as int) {
            Some(d) => Ok(
                IntervalKey {
                    value: Minute15Key::key_value(d.unix_microseconds as int) as i64,
                    _phantom: PhantomData,
                },
            ),
            None => Err(arbitrary()),
        }
    }
}

impl TryFrom<IntervalKey<Minute15Key>> for IntervalKey<MinuteKey> {
    type Error = String;

    /// The key of this kind of the slot start of `v`.
    fn try_from(v: IntervalKey<Minute15Key>) -> (r: Result<Self, String>)
        ensures
            match r {
                Ok(k) => Minute15Key::slot_start(v@ as int) matches Some(d) && k@ == MinuteKey::key_value(
                    d.unix_microseconds as int,
                ),
                Err(_) => Minute15Key::slot_start(v@ as int) is None,
            },
    {
        let dt = v.try_to_date_time()?;
        Ok(Self::new(dt))
    }
}

impl vstd::std_specs::convert::TryFromSpecImpl<IntervalKey<Minute15Key>> for IntervalKey<MinuteKey> {
    /// The error text is not stated here: `try_from` says what it returns.
    open spec fn obeys_try_from_spec() -> bool {
        false
    }

    closed spec fn try_from_spec(v: IntervalKey<Minute15Key>) -> Result<Self, String> {
        match Minute15Key::slot_start(v@ as int) {
            Some(d) => Ok(
                IntervalKey {
                    value: MinuteKey::key_value(d.unix_microseconds as int) as i64,
                    _phantom: PhantomData,
                },
            ),
            None => Err(arbitrary()),
        }
    }
}

impl TryFrom<IntervalKey<Minute5Key>> for IntervalKey<Minute15Key> {
    type Error = String;

    /// The key of this kind of the slot start of `v`.
    fn try_from(v: IntervalKey<Minute5Key>) -> (r: Result<Self, String>)
        ensures
            match r {
                Ok(k) => Minute5Key::slot_start(v@ as int) matches Some(d) && k@ == Minute15Key::key_value(
                    d.unix_microseconds as int,
                ),
                Err(_) => Minute5Key::slot_start(v@ as int) is None,
            },
    {
        let dt = v.try_to_date_time()?;
        Ok(Self::new(dt))
    }
}

impl vstd::std_specs::convert::TryFromSpecImpl<IntervalKey<Minute5Key>> for IntervalKey<Minute15Key> {
    /// The error text is not stated here: `try_from` says what it returns.
    open spec fn obeys_try_from_spec() -> bool {
        false
    }

    closed spec fn try_from_spec(v: IntervalKey<Minute5Key>) -> Result<Self, String> {
        match Minute5Key::slot_start(v@ as int) {
            Some(d) => Ok(
                IntervalKey {
                    value: Minute15Key::key_value(d.unix_microseconds as int) as i64,
                    _phantom: PhantomData,
                },
            ),
            None => Err(arbitrary()),
        }
    }
}

impl TryFrom<IntervalKey<Minute15Key>> for IntervalKey<Minute5Key> {
    type Error = String;

    /// The key of this kind of the slot start of `v`.
    fn try_from(v: IntervalKey<Minute15Key>) -> (r: Result<Self, String>)
        ensures
            match r {
                Ok(k) => Minute15Key::slot_start(v@ as int) matches Some(d) && k@ == Minute5Key::key_value(
                    d.unix_microseconds as int,
                ),
                Err(_) => Minute15Key::slot_start(v@ as int) is None,
            },
    {
        let dt = v.try_to_date_time()?;
        Ok(Self::new(dt))
    }
}

impl vstd::std_specs::convert::TryFromSpecImpl<IntervalKey<Minute15Key>> for IntervalKey<Minute5Key> {
    /// The error text is not stated here: `try_from` says what it returns.
    open spec fn obeys_try_from_spec() -> bool {
        false
    }

    closed spec fn try_from_spec(v: IntervalKey<Minute15Key>) -> Result<Self, String> {
        match Minute15Key::slot_start(v@ as int) {
            Some(d) => Ok(
                IntervalKey {
                    value: Minute5Key::key_value(d.unix_microseconds as int) as i64,
                    _phantom: PhantomData,
                },
            ),
            None => Err(arbitrary()),
        }
    }
}

impl TryFrom<IntervalKey<MinuteKey>> for IntervalKey<Minute30Key> {
    type Error = String;

    /// The key of this kind of the slot start of `v`.
    fn try_from(v: IntervalKey<MinuteKey>) -> (r: Result<Self, String>)
        ensures
            match r {
                Ok(k) => MinuteKey::slot_start(v@ as int) matches Some(d) && k@ == Minute30Key::key_value(
                    d.unix_microseconds as int,
                ),
                Err(_) => MinuteKey::slot_start(v@ as int) is None,
            },
    {
        let dt = v.try_to_date_time()?;
        Ok(Self::new(dt))
    }
}

impl vstd::std_specs::convert::TryFromSpecImpl<IntervalKey<MinuteKey>> for IntervalKey<Minute30Key> {
    /// The error text is not stated here: `try_from` says what it returns.
    open spec fn obeys_try_from_spec() -> bool {
        false
    }

    closed spec fn try_from_spec(v: IntervalKey<MinuteKey>) -> Result<Self, String> {
        match MinuteKey::slot_start(v@ as int) {
            Some(d) => Ok(
                IntervalKey {
                    value: Minute30Key::key_value(d.unix_microseconds as int) as i64,
                    _phantom: PhantomData,
                },
            ),
            None => Err(arbitrary()),
        }
    }
}

impl TryFrom<IntervalKey<Minute30Key>> for IntervalKey<MinuteKey> {
    type Error = String;

    /// The key of this kind of the slot start of `v`.
    fn try_from(v: IntervalKey<Minute30Key>) -> (r: Result<Self, String>)
        ensures
            match r {
                Ok(k) => Minute30Key::slot_start(v@ as int) matches Some(d) && k@ == MinuteKey::key_value(
                    d.unix_microseconds as int,
                ),
                Err(_) => Minute30Key::slot_start(v@ as int) is None,
            },
    {
        let dt = v.try_to_date_time()?;
        Ok(Self::new(dt))
    }
}

impl vstd::std_specs::convert::TryFromSpecImpl<IntervalKey<Minute30Key>> for IntervalKey<MinuteKey> {
    /// The error text is not stated here: `try_from` says what it returns.
    open spec fn obeys_try_from_spec() -> bool {
        false
    }

    closed spec fn try_from_spec(v: IntervalKey<Minute30Key>) -> Result<Self, String> {
        match Minute30Key::slot_start(v@ as int) {
            Some(d) => Ok(
                IntervalKey {
                    value: MinuteKey::key_value(d.unix_microseconds as int) as i64,
                    _phantom: PhantomData,
                },
            ),
            None => Err(arbitrary()),
        }
    }
}

impl TryFrom<IntervalKey<Minute5Key>> for IntervalKey<Minute30Key> {
    type Error = String;

    /// The key of this kind of the slot start of `v`.
    fn try_from(v: IntervalKey<Minute5Key>) -> (r: Result<Self, String>)
        ensures
            match r {
                Ok(k) => Minute5Key::slot_start(v@ as int) matches Some(d) && k@ == Minute30Key::key_value(
                    d.unix_microseconds as int,
                ),
                Err(_) => Minute5Key::slot_start(v@ as int) is None,
            },
    {
        let dt = v.try_to_date_time()?;
        Ok(Self::new(dt))
    }
}

impl vstd::std_specs::convert::TryFromSpecImpl<IntervalKey<Minute5Key>> for IntervalKey<Minute30Key> {
    /// The error text is not stated here: `try_from` says what it returns.
    open spec fn obeys_try_from_spec() -> bool {
        false
    }

    closed spec fn try_from_spec(v: IntervalKey<Minute5Key>) -> Result<Self, String> {
        match Minute5Key::slot_start(v@ as int) {
            Some(d) => Ok(
                IntervalKey {
                    value: Minute30Key::key_value(d.unix_microseconds as int) as i64,
                    _phantom: PhantomData,
                },
            ),
            None => Err(arbitrary()),
        }
    }
}

impl TryFrom<IntervalKey<Minute30Key>> for IntervalKey<Minute5Key> {
    type Error = String;

    /// The key of this kind of the slot start of `v`.
    fn try_from(v: IntervalKey<Minute30Key>) -> (r: Result<Self, String>)
        ensures
            match r {
                Ok(k) => Minute30Key::slot_start(v@ as int) matches Some(d) && k@ == Minute5Key::key_value(
                    d.unix_microseconds as int,
                ),
                Err(_) => Minute30Key::slot_start(v@ as int) is None,
            },
    {
        let dt = v.try_to_date_time()?;
        Ok(Self::new(dt))
    }
}

impl vstd::std_specs::convert::TryFromSpecImpl<IntervalKey<Minute30Key>> for IntervalKey<Minute5Key> {
    /// The error text is not stated here: `try_from` says what it returns.
    open spec fn obeys_try_from_spec() -> bool {
        false
    }

    closed spec fn try_from_spec(v: IntervalKey<Minute30Key>) -> Result<Self, String> {
        match Minute30Key::slot_start(v@ as int) {
            Some(d) => Ok(
                IntervalKey {
                    value: Minute5Key::key_value(d.unix_microseconds as int) as i64,
                    _phantom: PhantomData,
                },
            ),
            None => Err(arbitrary()),
        }
    }
}

impl TryFrom<IntervalKey<Minute15Key>> for IntervalKey<Minute30Key> {
    type Error = String;

    /// The key of this kind of the slot start of `v`.
    fn try_from(v: IntervalKey<Minute15Key>) -> (r: Result<Self, String>)
        ensures
            match r {
                Ok(k) => Minute15Key::slot_start(v@ as int) matches Some(d) && k@ == Minute30Key::key_value(
                    d.unix_microseconds as int,
                ),
                Err(_) => Minute15Key::slot_start(v@ as int) is None,
            },
    {
        let dt = v.try_to_date_time()?;
        Ok(Self::new(dt))
    }
}

impl vstd::std_specs::convert::TryFromSpecImpl<IntervalKey<Minute15Key>> for IntervalKey<Minute30Key> {
    /// The error text is not stated here: `try_from` says what it returns.
    open spec fn obeys_try_from_spec() -> bool {
        false
    }

    closed spec fn try_from_spec(v: IntervalKey<Minute15Key>) -> Result<Self, String> {
        match Minute15Key::slot_start(v@ as int) {
            Some(d) => Ok(
                IntervalKey {
                    value: Minute30Key::key_value(d.unix_microseconds as int) as i64,
                    _phantom: PhantomData,
                },
            ),
            None => Err(arbitrary()),
        }
    }
}

impl TryFrom<IntervalKey<Minute30Key>> for IntervalKey<Minute15Key> {
    type Error = String;

    /// The key of this kind of the slot start of `v`.
    fn try_from(v: IntervalKey<Minute30Key>) -> (r: Result<Self, String>)
        ensures
            match r {
                Ok(k) => Minute30Key::slot_start(v@ as int) matches Some(d) && k@ == Minute15Key::key_value(
                    d.unix_microseconds as int,
                ),
                Err(_) => Minute30Key::slot_start(v@ as int) is None,
            },
    {
        let dt = v.try_to_date_time()?;
        Ok(Self::new(dt))
    }
}

impl vstd::std_specs::convert::TryFromSpecImpl<IntervalKey<Minute30Key>> for IntervalKey<Minute15Key> {
    /// The error text is not stated here: `try_from` says what it returns.
    open spec fn obeys_try_from_spec() -> bool {
        false
    }

    closed spec fn try_from_spec(v: IntervalKey<Minute30Key>) -> Result<Self, String> {
        match Minute30Key::slot_start(v@ as int) {
            Some(d) => Ok(
                IntervalKey {
                    value: Minute15Key::key_value(d.unix_microseconds as int) as i64,
                    _phantom: PhantomData,
                },
            ),
            None => Err(arbitrary()),
        }
    }
}

impl TryFrom<IntervalKey<YearKey>> for DateTimeAsMicroseconds {
    type Error = String;

    /// The start of the slot the key names.
    fn try_from(v: IntervalKey<YearKey>) -> (r: Result<Self, String>)
        ensures
            match r {
                Ok(d) => YearKey::slot_start(v@ as int) == Some(d),
                Err(_) => YearKey::slot_start(v@ as int) is None,
            },
    {
        v.try_to_date_time()
    }
}

impl vstd::std_specs::convert::TryFromSpecImpl<IntervalKey<YearKey>> for DateTimeAsMicroseconds {
    /// The error text is not stated here: `try_from` says what it returns.
    open spec fn obeys_try_from_spec() -> bool {
        false
    }

    closed spec fn try_from_spec(v: IntervalKey<YearKey>) -> Result<Self, String> {
        match YearKey::slot_start(v@ as int) {
            Some(d) => Ok(d),
            None => Err(arbitrary()),
        }
    }
}

impl TryFrom<IntervalKey<MonthKey>> for DateTimeAsMicroseconds {
    type Error = String;

    /// The start of the slot the key names.
    fn try_from(v: IntervalKey<MonthKey>) -> (r: Result<Self, String>)
        ensures
            match r {
                Ok(d) => MonthKey::slot_start(v@ as int) == Some(d),
                Err(_) => MonthKey::slot_start(v@ as int) is None,
            },
    {
        v.try_to_date_time()
    }
}

impl vstd::std_specs::convert::TryFromSpecImpl<IntervalKey<MonthKey>> for DateTimeAsMicroseconds {
    /// The error text is not stated here: `try_from` says what it returns.
    open spec fn obeys_try_from_spec() -> bool {
        false
    }

    closed spec fn try_from_spec(v: IntervalKey<MonthKey>) -> Result<Self, String> {
        match MonthKey::slot_start(v@ as int) {
            Some(d) => Ok(d),
            None => Err(arbitrary()),
        }
    }
}

impl TryFrom<IntervalKey<DayKey>> for DateTimeAsMicroseconds {
    type Error = String;

    /// The start of the slot the key names.
    fn try_from(v: IntervalKey<DayKey>) -> (r: Result<Self, String>)
        ensures
            match r {
                Ok(d) => DayKey::slot_start(v@ as int) == Some(d),
                Err(_) => DayKey::slot_start(v@ as int) is None,
            },
    {
        v.try_to_date_time()
    }
}

impl vstd::std_specs::convert::TryFromSpecImpl<IntervalKey<DayKey>> for DateTimeAsMicroseconds {
    /// The error text is not stated here: `try_from` says what it returns.
    open spec fn obeys_try_from_spec() -> bool {
        false
    }

    closed spec fn try_from_spec(v: IntervalKey<DayKey>) -> Result<Self, String> {
        match DayKey::slot_start(v@ as int) {
            Some(d) => Ok(d),
            None => Err(arbitrary()),
        }
    }
}

impl TryFrom<IntervalKey<HourKey>> for DateTimeAsMicroseconds {
    type Error = String;

    /// The start of the slot the key names.
    fn try_from(v: IntervalKey<HourKey>) -> (r: Result<Self, String>)
        ensures
            match r {
                Ok(d) => HourKey::slot_start(v@ as int) == Some(d),
                Err(_) => HourKey::slot_start(v@ as int) is None,
            },
    {
        v.try_to_date_time()
    }
}

impl vstd::std_specs::convert::TryFromSpecImpl<IntervalKey<HourKey>> for DateTimeAsMicroseconds {
    /// The error text is not stated here: `try_from` says what it returns.
    open spec fn obeys_try_from_spec() -> bool {
        false
    }

    closed spec fn try_from_spec(v: IntervalKey<HourKey>) -> Result<Self, String> {
        match HourKey::slot_start(v@ as int) {
            Some(d) => Ok(d),
            None => Err(arbitrary()),
        }
    }
}

impl TryFrom<IntervalKey<Hour2Key>> for DateTimeAsMicroseconds {
    type Error = String;

    /// The start of the slot the key names.
    fn try_from(v: IntervalKey<Hour2Key>) -> (r: Result<Self, String>)
        ensures
            match r {
                Ok(d) => Hour2Key::slot_start(v@ as int) == Some(d),
                Err(_) => Hour2Key::slot_start(v@ as int) is None,
            },
    {
        v.try_to_date_time()
    }
}

impl vstd::std_specs::convert::TryFromSpecImpl<IntervalKey<Hour2Key>> for DateTimeAsMicroseconds {
    /// The error text is not stated here: `try_from` says what it returns.
    open spec fn obeys_try_from_spec() -> bool {
        false
    }

    closed spec fn try_from_spec(v: IntervalKey<Hour2Key>) -> Result<Self, String> {
        match Hour2Key::slot_start(v@ as int) {
            Some(d) => Ok(d),
            None => Err(arbitrary()),
        }
    }
}

impl TryFrom<IntervalKey<Hour4Key>> for DateTimeAsMicroseconds {
    type Error = String;

    /// The start of the slot the key names.
    fn try_from(v: IntervalKey<Hour4Key>) -> (r: Result<Self, String>)
        ensures
            match r {
                Ok(d) => Hour4Key::slot_start(v@ as int) == Some(d),
                Err(_) => Hour4Key::slot_start(v@ as int) is None,
            },
    {
        v.try_to_date_time()
    }
}

impl vstd::std_specs::convert::TryFromSpecImpl<IntervalKey<Hour4Key>> for DateTimeAsMicroseconds {
    /// The error text is not stated here: `try_from` says what it returns.
    open spec fn obeys_try_from_spec() -> bool {
        false
    }

    closed spec fn try_from_spec(v: IntervalKey<Hour4Key>) -> Result<Self, String> {
        match Hour4Key::slot_start(v@ as int) {
            Some(d) => Ok(d),
            None => Err(arbitrary()),
        }
    }
}

impl TryFrom<IntervalKey<MinuteKey>> for DateTimeAsMicroseconds {
    type Error = String;

    /// The start of the slot the key names.
    fn try_from(v: IntervalKey<MinuteKey>) -> (r: Result<Self, String>)
        ensures
            match r {
                Ok(d) => MinuteKey::slot_start(v@ as int) == Some(d),
                Err(_) => MinuteKey::slot_start(v@ as int) is None,
            },
    {
        v.try_to_date_time()
    }
}

impl vstd::std_specs::convert::TryFromSpecImpl<IntervalKey<MinuteKey>> for DateTimeAsMicroseconds {
    /// The error text is not stated here: `try_from` says what it returns.
    open spec fn obeys_try_from_spec() -> bool {
        false
    }

    closed spec fn try_from_spec(v: IntervalKey<MinuteKey>) -> Result<Self, String> {
        match MinuteKey::slot_start(v@ as int) {
            Some(d) => Ok(d),
            None => Err(arbitrary()),
        }
    }
}

impl TryFrom<IntervalKey<Minute5Key>> for DateTimeAsMicroseconds {
    type Error = String;

    /// The start of the slot the key names.
    fn try_from(v: IntervalKey<Minute5Key>) -> (r: Result<Self, String>)
        ensures
            match r {
                Ok(d) => Minute5Key::slot_start(v@ as int) == Some(d),
                Err(_) => Minute5Key::slot_start(v@ as int) is None,
            },
    {
        v.try_to_date_time()
    }
}

impl vstd::std_specs::convert::TryFromSpecImpl<IntervalKey<Minute5Key>> for DateTimeAsMicroseconds {
    /// The error text is not stated here: `try_from` says what it returns.
    open spec fn obeys_try_from_spec() -> bool {
        false
    }

    closed spec fn try_from_spec(v: IntervalKey<Minute5Key>) -> Result<Self, String> {
        match Minute5Key::slot_start(v@ as int) {
            Some(d) => Ok(d),
            None => Err(arbitrary()),
        }
    }
}

impl TryFrom<IntervalKey<Minute15Key>> for DateTimeAsMicroseconds {
    type Error = String;

    /// The start of the slot the key names.
    fn try_from(v: IntervalKey<Minute15Key>) -> (r: Result<Self, String>)
        ensures
            match r {
                Ok(d) => Minute15Key::slot_start(v@ as int) == Some(d),
                Err(_) => Minute15Key::slot_start(v@ as int) is None,
            },
    {
        v.try_to_date_time()
    }
}

impl vstd::std_specs::convert::TryFromSpecImpl<IntervalKey<Minute15Key>> for DateTimeAsMicroseconds {
    /// The error text is not stated here: `try_from` says what it returns.
    open spec fn obeys_try_from_spec() -> bool {
        false
    }

    closed spec fn try_from_spec(v: IntervalKey<Minute15Key>) -> Result<Self, String> {
        match Minute15Key::slot_start(v@ as int) {
            Some(d) => Ok(d),
            None => Err(arbitrary()),
        }
    }
}

impl TryFrom<IntervalKey<Minute30Key>> for DateTimeAsMicroseconds {
    type Error = String;

    /// The start of the slot the key names.
    fn try_from(v: IntervalKey<Minute30Key>) -> (r: Result<Self, String>)
        ensures
            match r {
                Ok(d) => Minute30Key::slot_start(v@ as int) == Some(d),
                Err(_) => Minute30Key::slot_start(v@ as int) is None,
            },
    {
        v.try_to_date_time()
    }
}

impl vstd::std_specs::convert::TryFromSpecImpl<IntervalKey<Minute30Key>> for DateTimeAsMicroseconds {
    /// The error text is not stated here: `try_from` says what it returns.
    open spec fn obeys_try_from_spec() -> bool {
        false
    }

    closed spec fn try_from_spec(v: IntervalKey<Minute30Key>) -> Result<Self, String> {
        match Minute30Key::slot_start(v@ as int) {
            Some(d) => Ok(d),
            None => Err(arbitrary()),
        }
    }
}

} // verus!
