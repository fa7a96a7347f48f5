//! Building a generator: the configuration is gathered step by step and
//! checked as a whole.

use crate::clock::{default_start_time, now_nanos, ticks, to_snowflake_time, DEFAULT_START_TIME};
use crate::error::{plain, Error, ErrorView};
use crate::layout::{field, low_mask, Layout};
use crate::network::{addresses, get_ids_from_ip, ids_from, Interface};
use crate::snowflake::{Snowflake, SnowflakeView};
use vstd::arithmetic::power2::{lemma2_to64, lemma_pow2_pos, lemma_pow2_strictly_increases, pow2};
use vstd::prelude::*;
use vstd::string::*;

verus! {

/// Where a generator's machine number or data-center number comes from.
/// The builder asks once, while it builds.
pub trait IdSource {
    /// The number, or why there is none.
    fn resolve(&self) -> Result<u16, String>;
}

/// A test that a machine number or a data-center number has to pass.
pub trait IdCheck {
    /// Whether `id` will do.
    fn accept(&self, id: u16) -> bool;
}

/// Which of the two numbers that name a generator.
#[derive(Clone, Copy, Debug, PartialEq, Eq, Structural)]
pub enum IdKind {
    /// The machine number.
    Machine,
    /// The data-center number.
    DataCenter,
}

/// A builder of generators.
pub struct Builder<'a> {
    start_time: Option<i64>,
    machine_id: Option<&'a dyn IdSource>,
    data_center_id: Option<&'a dyn IdSource>,
    check_machine_id: Option<&'a dyn IdCheck>,
    check_data_center_id: Option<&'a dyn IdCheck>,
    ip_fallback: Option<Option<(u16, u16)>>,
    bit_len_time: u8,
    bit_len_sequence: u8,
    bit_len_data_center_id: u8,
    bit_len_machine_id: u8,
}

/// What a builder holds.
pub struct BuilderView<'a> {
    /// The epoch asked for, in nanoseconds since the Unix epoch; `None`
    /// stands for the default epoch.
    pub start_time: Option<i64>,
    /// The source of the machine number.
    pub machine_id: Option<&'a dyn IdSource>,
    /// The source of the data-center number.
    pub data_center_id: Option<&'a dyn IdSource>,
    /// The check on the machine number.
    pub check_machine_id: Option<&'a dyn IdCheck>,
    /// The check on the data-center number.
    pub check_data_center_id: Option<&'a dyn IdCheck>,
    /// What stands in for a source that was not given: `None` where
    /// nothing does, else the data-center number and the machine number
    /// that the machine's addresses gave, or `None` where they gave none.
    pub ip_fallback: Option<Option<(u16, u16)>>,
    /// Width of the time field.
    pub bit_len_time: u8,
    /// Width of the sequence field.
    pub bit_len_sequence: u8,
    /// Width of the data-center field.
    pub bit_len_data_center_id: u8,
    /// Width of the machine field.
    pub bit_len_machine_id: u8,
}

/// Answers of the sources and the checks to one build. An answer that the
/// build does not ask for plays no part.
pub struct Resolution {
    /// The answer of the source of the machine number.
    pub machine_id: Result<u16, Seq<char>>,
    /// The answer of the check on the machine number, which is asked about
    /// the number found.
    pub machine_id_accepted: bool,
    /// The answer of the source of the data-center number.
    pub data_center_id: Result<u16, Seq<char>>,
    /// The answer of the check on the data-center number, which is asked
    /// about the number found.
    pub data_center_id_accepted: bool,
}

/// The text of the error for a number without a source.
pub open spec fn missing_text(kind: IdKind) -> Seq<char> {
    match kind {
        IdKind::Machine => "Machine ID not provided and no address fallback is set"@,
        IdKind::DataCenter => "Data Center ID not provided and no address fallback is set"@,
    }
}

/// The error that says that a number could not be had.
pub open spec fn failed(kind: IdKind, text: Seq<char>) -> ErrorView {
    match kind {
        IdKind::Machine => ErrorView::MachineIdFailed(text),
        IdKind::DataCenter => ErrorView::DataCenterIdFailed(text),
    }
}

/// The error that says that the number `id` does not fit its field, whose
/// highest number is `max`.
pub open spec fn out_of_range(kind: IdKind, id: u16, max: u16) -> ErrorView {
    match kind {
        IdKind::Machine => ErrorView::MachineIdOutOfRange(id, max),
        IdKind::DataCenter => ErrorView::DataCenterIdOutOfRange(id, max),
    }
}

/// The error that says that a check turned a number down.
pub open spec fn rejected(kind: IdKind) -> ErrorView {
    match kind {
        IdKind::Machine => ErrorView::CheckMachineIdFailed,
        IdKind::DataCenter => ErrorView::CheckDataCenterIdFailed,
    }
}

/// The epoch of the generator, in ticks since the Unix epoch, for a build
/// at the time `now_nanos`: the tick of the start time asked for, which may
/// not lie after the time of the build, or else the default epoch.
pub open spec fn start_tick(start_time: Option<i64>, now_nanos: int) -> Result<int, ErrorView> {
    match start_time {
        Some(nanos) => if nanos > now_nanos {
            Err(ErrorView::StartTimeAheadOfCurrentTime(nanos))
        } else {
            Ok(ticks(nanos as int))
        },
        None => Ok(DEFAULT_START_TIME as int),
    }
}

/// What becomes of a source's answer: a failure is handed on as a failure
/// of the source, a number has to fit a field of `width` bits.
pub open spec fn vetted(kind: IdKind, answer: Result<u16, Seq<char>>, width: u8) -> Result<
    u16,
    ErrorView,
> {
    match answer {
        Err(text) => Err(failed(kind, text)),
        Ok(id) => if id < pow2(width as nat) {
            Ok(id)
        } else {
            Err(out_of_range(kind, id, (pow2(width as nat) - 1) as u16))
        },
    }
}

/// The number that a build finds, before any check: with a source, the
/// source's answer, vetted; without one, the fallback, cut down to the
/// field's width. A build without either fails.
pub open spec fn found(
    kind: IdKind,
    answer: Option<Result<u16, Seq<char>>>,
    fallback: Option<Option<u16>>,
    width: u8,
) -> Result<u16, ErrorView> {
    match answer {
        Some(answer) => vetted(kind, answer, width),
        None => match fallback {
            None => Err(failed(kind, missing_text(kind))),
            Some(None) => Err(ErrorView::NoPrivateIPv4),
            Some(Some(id)) => Ok((id as nat % pow2(width as nat)) as u16),
        },
    }
}

/// What becomes of a number that was found, given the verdict of the check
/// on it: a check that says no fails the build; a check that says yes, or
/// no check at all, lets the number through.
pub open spec fn passed(kind: IdKind, id: u16, verdict: Option<bool>) -> Result<u16, ErrorView> {
    if verdict == Some(false) {
        Err(rejected(kind))
    } else {
        Ok(id)
    }
}

/// The number that a build settles on, or the error it ends with: the
/// number found, put to the check.
pub open spec fn identity(
    kind: IdKind,
    answer: Option<Result<u16, Seq<char>>>,
    fallback: Option<Option<u16>>,
    width: u8,
    verdict: Option<bool>,
) -> Result<u16, ErrorView> {
    match found(kind, answer, fallback, width) {
        Ok(id) => passed(kind, id, verdict),
        Err(error) => Err(error),
    }
}

impl<'a> BuilderView<'a> {
    /// The four widths add up to 63.
    pub open spec fn layout_ok(self) -> bool {
        self.bit_len_time + self.bit_len_sequence + self.bit_len_data_center_id
            + self.bit_len_machine_id == 63
    }

    /// The four widths as a layout.
    pub open spec fn layout(self) -> Layout {
        Layout {
            time: self.bit_len_time,
            sequence: self.bit_len_sequence,
            data_center_id: self.bit_len_data_center_id,
            machine_id: self.bit_len_machine_id,
        }
    }

    /// The machine number of the fallback.
    pub open spec fn machine_id_fallback(self) -> Option<Option<u16>> {
        match self.ip_fallback {
            None => None,
            Some(None) => Some(None),
            Some(Some(ids)) => Some(Some(ids.1)),
        }
    }

    /// The data-center number of the fallback.
    pub open spec fn data_center_id_fallback(self) -> Option<Option<u16>> {
        match self.ip_fallback {
            None => None,
            Some(None) => Some(None),
            Some(Some(ids)) => Some(Some(ids.0)),
        }
    }

    /// The answer of the source of the machine number, where there is one.
    pub open spec fn machine_id_answer(self, answers: Resolution) -> Option<
        Result<u16, Seq<char>>,
    > {
        if self.machine_id is Some {
            Some(answers.machine_id)
        } else {
            None
        }
    }

    /// The answer of the source of the data-center number, where there is
    /// one.
    pub open spec fn data_center_id_answer(self, answers: Resolution) -> Option<
        Result<u16, Seq<char>>,
    > {
        if self.data_center_id is Some {
            Some(answers.data_center_id)
        } else {
            None
        }
    }

    /// The verdict of the check on the machine number, where there is one.
    pub open spec fn machine_id_verdict(self, answers: Resolution) -> Option<bool> {
        if self.check_machine_id is Some {
            Some(answers.machine_id_accepted)
        } else {
            None
        }
    }

    /// The verdict of the check on the data-center number, where there is
    /// one.
    pub open spec fn data_center_id_verdict(self, answers: Resolution) -> Option<bool> {
        if self.check_data_center_id is Some {
            Some(answers.data_center_id_accepted)
        } else {
            None
        }
    }

    /// The outcome of a build at the time `now_nanos` to which the sources
    /// and checks answered `answers`: the first of the checks that fails,
    /// in the order widths, start time, machine number, data-center number,
    /// decides the error; where none fails, the generator is a fresh one
    /// with the layout, the epoch and the numbers found.
    pub open spec fn build(self, now_nanos: int, answers: Resolution) -> Result<
        SnowflakeView,
        ErrorView,
    > {
        if !self.layout_ok() {
            Err(
                ErrorView::InvalidBitLength(
                    self.bit_len_time,
                    self.bit_len_sequence,
                    self.bit_len_data_center_id,
                    self.bit_len_machine_id,
                ),
            )
        } else {
            match start_tick(self.start_time, now_nanos) {
                Err(error) => Err(error),
                Ok(start_time) => match identity(
                    IdKind::Machine,
                    self.machine_id_answer(answers),
                    self.machine_id_fallback(),
                    self.bit_len_machine_id,
                    self.machine_id_verdict(answers),
                ) {
                    Err(error) => Err(error),
                    Ok(machine_id) => match identity(
                        IdKind::DataCenter,
                        self.data_center_id_answer(answers),
                        self.data_center_id_fallback(),
                        self.bit_len_data_center_id,
                        self.data_center_id_verdict(answers),
                    ) {
                        Err(error) => Err(error),
                        Ok(data_center_id) => Ok(
                            SnowflakeView {
                                layout: self.layout(),
                                start_time,
                                data_center_id: data_center_id as nat,
                                machine_id: machine_id as nat,
                                elapsed_time: 0,
                                sequence: 0,
                            },
                        ),
                    },
                },
            }
        }
    }
}

/// What a build gave, as plain values.
pub open spec fn outcome(built: Result<Snowflake, Error>) -> Result<SnowflakeView, ErrorView> {
    match built {
        Ok(generator) => Ok(generator@),
        Err(error) => Err(error@),
    }
}

impl<'a> View for Builder<'a> {
    type V = BuilderView<'a>;

    closed spec fn view(&self) -> BuilderView<'a> {
        BuilderView {
            start_time: self.start_time,
            machine_id: self.machine_id,
            data_center_id: self.data_center_id,
            check_machine_id: self.check_machine_id,
            check_data_center_id: self.check_data_center_id,
            ip_fallback: self.ip_fallback,
            bit_len_time: self.bit_len_time,
            bit_len_sequence: self.bit_len_sequence,
            bit_len_data_center_id: self.bit_len_data_center_id,
            bit_len_machine_id: self.bit_len_machine_id,
        }
    }
}

/// A source's answer as plain values.
pub open spec fn answer_of(answer: Result<u16, String>) -> Result<u16, Seq<char>> {
    match answer {
        Ok(id) => Ok(id),
        Err(text) => Err(text@),
    }
}

/// The answer of a source, where there is one, as plain values.
pub open spec fn asked(answer: Option<Result<u16, String>>) -> Option<Result<u16, Seq<char>>> {
    match answer {
        Some(answer) => Some(answer_of(answer)),
        None => None,
    }
}

/// The error that says that the number `kind` could not be had.
fn fail(kind: IdKind, text: String) -> (error: Error)
    ensures
        error@ == failed(kind, text@),
{
    match kind {
        IdKind::Machine => Error::MachineIdFailed(text),
        IdKind::DataCenter => Error::DataCenterIdFailed(text),
    }
}

/// Hands a source's failure on and holds a source's number against the
/// width of its field.
pub fn vet_id(kind: IdKind, answer: Result<u16, String>, width: u8) -> (vetted_id: Result<
    u16,
    Error,
>)
    ensures
        plain(vetted_id) == vetted(kind, answer_of(answer), width),
{
    match answer {
        Err(text) => Err(fail(kind, text)),
        Ok(id) => {
            proof {
                lemma2_to64();
                if width > 16 {
                    lemma_pow2_strictly_increases(16, width as nat);
                }
            }
            if width >= 16 {
                return Ok(id);
            }
            let max = low_mask(width);
            if id as u64 > max {
                match kind {
                    IdKind::Machine => Err(Error::MachineIdOutOfRange(id, max as u16)),
                    IdKind::DataCenter => Err(Error::DataCenterIdOutOfRange(id, max as u16)),
                }
            } else {
                Ok(id)
            }
        },
    }
}

/// Finds one of the two numbers from what its source answered, where it
/// has a source, or from the fallback.
pub fn find_id(
    kind: IdKind,
    answer: Option<Result<u16, String>>,
    fallback: Option<Option<u16>>,
    width: u8,
) -> (found_id: Result<u16, Error>)
    ensures
        plain(found_id) == found(kind, asked(answer), fallback, width),
{
    match answer {
        Some(answer) => vet_id(kind, answer, width),
        None => match fallback {
            None => match kind {
                IdKind::Machine => Err(
                    Error::MachineIdFailed(
                        String::from_str("Machine ID not provided and no address fallback is set"),
                    ),
                ),
                IdKind::DataCenter => Err(
                    Error::DataCenterIdFailed(
                        String::from_str(
                            "Data Center ID not provided and no address fallback is set",
                        ),
                    ),
                ),
            },
            Some(None) => Err(Error::NoPrivateIPv4),
            Some(Some(id)) => {
                proof {
                    lemma2_to64();
                    if width > 16 {
                        lemma_pow2_strictly_increases(16, width as nat);
                    }
                }
                if width >= 16 {
                    proof {
                        vstd::arithmetic::div_mod::lemma_small_mod(id as nat, pow2(width as nat));
                    }
                    Ok(id)
                } else {
                    Ok(field(id as u64, 0, width) as u16)
                }
            },
        },
    }
}

/// Puts a number that was found to the verdict of its check, where it has
/// a check.
pub fn pass_check(kind: IdKind, id: u16, verdict: Option<bool>) -> (passed_id: Result<u16, Error>)
    ensures
        plain(passed_id) == passed(kind, id, verdict),
{
    match verdict {
        Some(false) => match kind {
            IdKind::Machine => Err(Error::CheckMachineIdFailed),
            IdKind::DataCenter => Err(Error::CheckDataCenterIdFailed),
        },
        _ => Ok(id),
    }
}

impl<'a> Default for Builder<'a> {
    fn default() -> (builder: Self)
        ensures
            builder@ == Builder::first(),
    {
        Builder::new()
    }
}

impl<'a> Builder<'a> {
    /// What a new builder holds: the default epoch, no source, no check, no
    /// fallback, and the widths 41, 12, 5 and 5.
    pub open spec fn first() -> BuilderView<'a> {
        BuilderView {
            start_time: None,
            machine_id: None,
            data_center_id: None,
            check_machine_id: None,
            check_data_center_id: None,
            ip_fallback: None,
            bit_len_time: 41,
            bit_len_sequence: 12,
            bit_len_data_center_id: 5,
            bit_len_machine_id: 5,
        }
    }

    /// A builder with the default epoch and widths, no source and no check.
    pub fn new() -> (builder: Self)
        ensures
            builder@ == Builder::first(),
    {
        Builder {
            start_time: None,
            machine_id: None,
            data_center_id: None,
            check_machine_id: None,
            check_data_center_id: None,
            ip_fallback: None,
            bit_len_time: 41,
            bit_len_sequence: 12,
            bit_len_data_center_id: 5,
            bit_len_machine_id: 5,
        }
    }

    /// Sets the epoch, in nanoseconds since the Unix epoch. A build fails
    /// where the epoch lies after the time of the build.
    pub fn start_time(self, start_time: i64) -> (builder: Self)
        ensures
            builder@ == (BuilderView { start_time: Some(start_time), ..self@ }),
    {
        let mut builder = self;
        builder.start_time = Some(start_time);
        builder
    }

    /// Sets the source of the machine number. A build fails where the
    /// source does.
    pub fn machine_id(self, machine_id: &'a dyn IdSource) -> (builder: Self)
        ensures
            builder@ == (BuilderView { machine_id: Some(machine_id), ..self@ }),
    {
        let mut builder = self;
        builder.machine_id = Some(machine_id);
        builder
    }

    /// Sets the source of the data-center number. A build fails where the
    /// source does.
    pub fn data_center_id(self, data_center_id: &'a dyn IdSource) -> (builder: Self)
        ensures
            builder@ == (BuilderView { data_center_id: Some(data_center_id), ..self@ }),
    {
        let mut builder = self;
        builder.data_center_id = Some(data_center_id);
        builder
    }

    /// Sets the check on the machine number. A build fails where the check
    /// turns the number down.
    pub fn check_machine_id(self, check_machine_id: &'a dyn IdCheck) -> (builder: Self)
        ensures
            builder@ == (BuilderView { check_machine_id: Some(check_machine_id), ..self@ }),
    {
        let mut builder = self;
        builder.check_machine_id = Some(check_machine_id);
        builder
    }

    /// Sets the check on the data-center number. A build fails where the
    /// check turns the number down.
    pub fn check_data_center_id(self, check_data_center_id: &'a dyn IdCheck) -> (builder: Self)
        ensures
            builder@ == (BuilderView { check_data_center_id: Some(check_data_center_id), ..self@ }),
    {
        let mut builder = self;
        builder.check_data_center_id = Some(check_data_center_id);
        builder
    }

    /// Lets the machine's addresses stand in for a source that is not
    /// given: the numbers are taken from the first private address among
    /// `interfaces`.
    pub fn ip_fallback(self, interfaces: &[Interface]) -> (builder: Self)
        ensures
            builder@ == (BuilderView {
                ip_fallback: Some(ids_from(addresses(interfaces@))),
                ..self@
            }),
    {
        let mut builder = self;
        builder.ip_fallback = Some(get_ids_from_ip(interfaces));
        builder
    }

    /// Sets the width of the time field.
    pub fn bit_len_time(self, bit_len_time: u8) -> (builder: Self)
        ensures
            builder@ == (BuilderView { bit_len_time, ..self@ }),
    {
        let mut builder = self;
        builder.bit_len_time = bit_len_time;
        builder
    }

    /// Sets the width of the sequence field.
    pub fn bit_len_sequence(self, bit_len_sequence: u8) -> (builder: Self)
        ensures
            builder@ == (BuilderView { bit_len_sequence, ..self@ }),
    {
        let mut builder = self;
        builder.bit_len_sequence = bit_len_sequence;
        builder
    }

    /// Sets the width of the data-center field.
    pub fn bit_len_data_center_id(self, bit_len_data_center_id: u8) -> (builder: Self)
        ensures
            builder@ == (BuilderView { bit_len_data_center_id, ..self@ }),
    {
        let mut builder = self;
        builder.bit_len_data_center_id = bit_len_data_center_id;
        builder
    }

    /// Sets the width of the machine field.
    pub fn bit_len_machine_id(self, bit_len_machine_id: u8) -> (builder: Self)
        ensures
            builder@ == (BuilderView { bit_len_machine_id, ..self@ }),
    {
        let mut builder = self;
        builder.bit_len_machine_id = bit_len_machine_id;
        builder
    }

    /// Checks the configuration against a clock that reads `now_nanos`
    /// nanoseconds since the Unix epoch, and makes the generator.
    ///
    /// The build goes in the order of `build` and asks a source or a check
    /// only where it gets that far. What a source answers goes to `find_id`
    /// as it is; a check is asked about the number that `find_id` gave, and
    /// its verdict goes to `pass_check` as it is. The outcome is therefore
    /// one that `build` gives for some answers; where the build asks
    /// nobody, or fails before it asks, `build` gives one outcome only.
    pub fn finalize_at(self, now_nanos: i64) -> (built: Result<Snowflake, Error>)
        ensures
            exists|answers: Resolution| outcome(built) == #[trigger] self@.build(now_nanos as int, answers),
            !self@.layout_ok() ==> outcome(built) == Err::<SnowflakeView, ErrorView>(
                ErrorView::InvalidBitLength(
                    self@.bit_len_time,
                    self@.bit_len_sequence,
                    self@.bit_len_data_center_id,
                    self@.bit_len_machine_id,
                ),
            ),
            self@.layout_ok() && start_tick(self@.start_time, now_nanos as int) is Err ==> outcome(
                built,
            ) == Err::<SnowflakeView, ErrorView>(
                ErrorView::StartTimeAheadOfCurrentTime(self@.start_time->Some_0),
            ),
            self@.start_time matches Some(start_time) && start_time > now_nanos ==> built is Err,
            built matches Ok(generator) ==> generator@.wf(),
    {
        let ghost mut answers = Resolution {
            machine_id: Ok(0),
            machine_id_accepted: true,
            data_center_id: Ok(0),
            data_center_id_accepted: true,
        };
        let layout = match Layout::new(
            self.bit_len_time,
            self.bit_len_sequence,
            self.bit_len_data_center_id,
            self.bit_len_machine_id,
        ) {
            Ok(layout) => layout,
            Err(error) => {
                assert(outcome(Err(error)) == self@.build(now_nanos as int, answers));
                return Err(error);
            },
        };
        let start_time = match self.start_time {
            Some(start_time) => {
                if start_time > now_nanos {
                    let error = Error::StartTimeAheadOfCurrentTime(start_time);
                    assert(outcome(Err(error)) == self@.build(now_nanos as int, answers));
                    return Err(error);
                }
                to_snowflake_time(start_time)
            },
            None => default_start_time(),
        };

        let machine_id_fallback = match self.ip_fallback {
            None => None,
            Some(None) => Some(None),
            Some(Some(ids)) => Some(Some(ids.1)),
        };
        let answer = match self.machine_id {
            Some(source) => Some(source.resolve()),
            None => None,
        };
        proof {
            if let Some(given) = asked(answer) {
                answers = Resolution { machine_id: given, ..answers };
            }
        }
        let machine_id = match find_id(
            IdKind::Machine,
            answer,
            machine_id_fallback,
            self.bit_len_machine_id,
        ) {
            Ok(id) => id,
            Err(error) => {
                assert(outcome(Err(error)) == self@.build(now_nanos as int, answers));
                return Err(error);
            },
        };
        let verdict = match self.check_machine_id {
            Some(check) => Some(check.accept(machine_id)),
            None => None,
        };
        proof {
            if let Some(verdict) = verdict {
                answers = Resolution { machine_id_accepted: verdict, ..answers };
            }
        }
        let machine_id = match pass_check(IdKind::Machine, machine_id, verdict) {
            Ok(id) => id,
            Err(error) => {
                assert(outcome(Err(error)) == self@.build(now_nanos as int, answers));
                return Err(error);
            },
        };

        let data_center_id_fallback = match self.ip_fallback {
            None => None,
            Some(None) => Some(None),
            Some(Some(ids)) => Some(Some(ids.0)),
        };
        let answer = match self.data_center_id {
            Some(source) => Some(source.resolve()),
            None => None,
        };
        proof {
            if let Some(given) = asked(answer) {
                answers = Resolution { data_center_id: given, ..answers };
            }
        }
        let data_center_id = match find_id(
            IdKind::DataCenter,
            answer,
            data_center_id_fallback,
            self.bit_len_data_center_id,
        ) {
            Ok(id) => id,
            Err(error) => {
                assert(outcome(Err(error)) == self@.build(now_nanos as int, answers));
                return Err(error);
            },
        };
        let verdict = match self.check_data_center_id {
            Some(check) => Some(check.accept(data_center_id)),
            None => None,
        };
        proof {
            if let Some(verdict) = verdict {
                answers = Resolution { data_center_id_accepted: verdict, ..answers };
            }
        }
        let data_center_id = match pass_check(IdKind::DataCenter, data_center_id, verdict) {
            Ok(id) => id,
            Err(error) => {
                assert(outcome(Err(error)) == self@.build(now_nanos as int, answers));
                return Err(error);
            },
        };

        proof {
            lemma_pow2_pos(self.bit_len_machine_id as nat);
            lemma_pow2_pos(self.bit_len_data_center_id as nat);
        }
        let generator = Snowflake::new_inner(layout, start_time, data_center_id, machine_id);
        assert(outcome(Ok(generator)) == self@.build(now_nanos as int, answers));
        Ok(generator)
    }

    /// Reads the clock, checks the configuration and makes the generator.
    ///
    /// The outcome is the one that `finalize_at` gives for some reading of
    /// the clock. Whatever the clock read, widths that do not add up to 63
    /// fail the build.
    pub fn finalize(self) -> (built: Result<Snowflake, Error>)
        ensures
            exists|now: i64, answers: Resolution|
                now >= 0 && outcome(built) == #[trigger] self@.build(now as int, answers),
            !self@.layout_ok() ==> outcome(built) == Err::<SnowflakeView, ErrorView>(
                ErrorView::InvalidBitLength(
                    self@.bit_len_time,
                    self@.bit_len_sequence,
                    self@.bit_len_data_center_id,
                    self@.bit_len_machine_id,
                ),
            ),
            built matches Ok(generator) ==> generator@.wf(),
    {
        let now = now_nanos();
        self.finalize_at(now)
    }
}

impl Snowflake {
    /// A generator of the default configuration. Without a source of the
    /// machine number the build fails; it says so.
    pub fn new() -> (built: Result<Snowflake, Error>)
        ensures
            outcome(built) == Err::<SnowflakeView, ErrorView>(
                ErrorView::MachineIdFailed(missing_text(IdKind::Machine)),
            ),
    {
        Builder::new().finalize()
    }

    /// A builder of generators.
    pub fn builder<'a>() -> (builder: Builder<'a>)
        ensures
            builder@ == Builder::first(),
    {
        Builder::new()
    }
}

} // verus!
