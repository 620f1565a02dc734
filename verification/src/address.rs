//! The addresses of the values that the drive exposes to its host.
//!
//! An address names one leaf of the state of the drive: an element of an
//! array by its index, a field by its name, a field of one phase of a
//! controller by that phase. The set of addresses is closed; an address
//! whose index is out of range, or whose phase is not the present one, has
//! no value.

use vstd::prelude::*;
use crate::config::Config;
use crate::encoder::EncoderState;
use crate::fixed::Fixed;
use crate::foc::{FieldOrientedControl, PosController};
use crate::pid::{DQCurrentController, PIController};
use crate::calibration::{EncoderCalibration, EncoderCalibrationState};
use crate::state_machine::{Controller, ControllerUpdate, VoltageController};

verus! {

/// The number of analog channels.
pub const ADC_CHANNELS: usize = 16;

/// The number of phases.
pub const PHASES: usize = 3;

/// A value read from, or written to, an address.
#[derive(Clone, Copy, Debug, PartialEq, Eq, Structural)]
pub enum Value {
    U16(u16),
    U32(u32),
    Real(Fixed),
}

/// The type of the value at an address.
#[derive(Clone, Copy, Debug, PartialEq, Eq, Structural)]
pub enum Kind {
    U16,
    U32,
    Real,
}

impl Value {
    /// The type of the value.
    pub open spec fn spec_kind(&self) -> Kind {
        match self {
            Value::U16(_) => Kind::U16,
            Value::U32(_) => Kind::U32,
            Value::Real(_) => Kind::Real,
        }
    }

    #[verifier::when_used_as_spec(spec_kind)]
    pub fn kind(&self) -> (r: Kind)
        ensures
            r == self.spec_kind(),
    {
        match self {
            Value::U16(_) => Kind::U16,
            Value::U32(_) => Kind::U32,
            Value::Real(_) => Kind::Real,
        }
    }
}

/// A field of the measurements of a tick.
#[derive(Clone, Copy, Debug, PartialEq, Eq, Structural, Hash)]
pub enum UpdateField {
    PhaseCurrentU,
    PhaseCurrentV,
    PhaseCurrentW,
    BusVoltage,
}

/// A field of the calibration controller.
#[derive(Clone, Copy, Debug, PartialEq, Eq, Structural, Hash)]
pub enum CalField {
    /// The ticks waited; there only while the controller waits.
    Wait,
    PositionTarget,
    OpenLoopPosition,
}

/// A field of field-oriented control.
#[derive(Clone, Copy, Debug, PartialEq, Eq, Structural, Hash)]
pub enum FocField {
    Offset,
    DCurrent,
    QCurrent,
    QRequest,
    PosSetpoint,
    VelSetpoint,
    VelIntegral,
    DIntegral,
    QIntegral,
    Position,
    FilteredPosition,
    Velocity,
}

/// A field of the controller.
#[derive(Clone, Copy, Debug, PartialEq, Eq, Structural, Hash)]
pub enum ControllerField {
    /// The rounding error carried over on a phase.
    Residual(u8),
    /// A field of the calibration; there only while the drive calibrates.
    Cal(CalField),
    /// A field of field-oriented control; there only once it is in charge.
    Foc(FocField),
}

/// A field of the running sensor; there only once the sensor runs.
#[derive(Clone, Copy, Debug, PartialEq, Eq, Structural, Hash)]
pub enum EncoderField {
    Normalized(u8),
    Compensated(u8),
    Unwrapped(u8),
    Position,
    FilteredPosition,
    Velocity,
}

/// A field of the settings.
#[derive(Clone, Copy, Debug, PartialEq, Eq, Structural, Hash)]
pub enum ConfigField {
    MotorLenPerCycle,
    EncoderLenPerCycle,
    CalibrationLength,
    CalibrationSpeed,
    OpenLoopVoltage,
    Uvlo,
    SwitchingFrequency,
    SwitchingClockFrequency,
    CycleDeadtime,
    ControlFrequency,
    CurrentControllerKP,
    CurrentControllerKI,
    VelControllerKP,
    VelControllerKI,
    PosControllerKP,
    CurrLimit,
    HardCurrLimit,
    /// An offset of the compensation, by channel.
    CompBias(u8),
    /// A weight of the compensation, by row and column.
    CompMatrix(u8, u8),
}

impl UpdateField {
    /// The place of the field in the list of fields.
    pub open spec fn spec_index(&self) -> u8 {
        match self {
            UpdateField::PhaseCurrentU => 0u8,
            UpdateField::PhaseCurrentV => 1u8,
            UpdateField::PhaseCurrentW => 2u8,
            UpdateField::BusVoltage => 3u8,
        }
    }

    /// The field at a place in the list of fields, if there is one.
    pub open spec fn spec_from_index(index: u8) -> Option<UpdateField> {
        if index == 0 {
            Some(UpdateField::PhaseCurrentU)
        }         else if index == 1 {
            Some(UpdateField::PhaseCurrentV)
        }         else if index == 2 {
            Some(UpdateField::PhaseCurrentW)
        }         else if index == 3 {
            Some(UpdateField::BusVoltage)
        } else {
            None
        }
    }

    #[verifier::when_used_as_spec(spec_index)]
    pub fn index(&self) -> (r: u8)
        ensures
            r == self.spec_index(),
            UpdateField::spec_from_index(r) == Some(*self),
    {
        match self {
            UpdateField::PhaseCurrentU => 0,
            UpdateField::PhaseCurrentV => 1,
            UpdateField::PhaseCurrentW => 2,
            UpdateField::BusVoltage => 3,
        }
    }

    #[verifier::when_used_as_spec(spec_from_index)]
    pub fn from_index(index: u8) -> (r: Option<UpdateField>)
        ensures
            r == UpdateField::spec_from_index(index),
    {
        if index == 0 {
            Some(UpdateField::PhaseCurrentU)
        }         else if index == 1 {
            Some(UpdateField::PhaseCurrentV)
        }         else if index == 2 {
            Some(UpdateField::PhaseCurrentW)
        }         else if index == 3 {
            Some(UpdateField::BusVoltage)
        } else {
            None
        }
    }
}

impl CalField {
    /// The place of the field in the list of fields.
    pub open spec fn spec_index(&self) -> u8 {
        match self {
            CalField::Wait => 0u8,
            CalField::PositionTarget => 1u8,
            CalField::OpenLoopPosition => 2u8,
        }
    }

    /// The field at a place in the list of fields, if there is one.
    pub open spec fn spec_from_index(index: u8) -> Option<CalField> {
        if index == 0 {
            Some(CalField::Wait)
        }         else if index == 1 {
            Some(CalField::PositionTarget)
        }         else if index == 2 {
            Some(CalField::OpenLoopPosition)
        } else {
            None
        }
    }

    #[verifier::when_used_as_spec(spec_index)]
    pub fn index(&self) -> (r: u8)
        ensures
            r == self.spec_index(),
            CalField::spec_from_index(r) == Some(*self),
    {
        match self {
            CalField::Wait => 0,
            CalField::PositionTarget => 1,
            CalField::OpenLoopPosition => 2,
        }
    }

    #[verifier::when_used_as_spec(spec_from_index)]
    pub fn from_index(index: u8) -> (r: Option<CalField>)
        ensures
            r == CalField::spec_from_index(index),
    {
        if index == 0 {
            Some(CalField::Wait)
        }         else if index == 1 {
            Some(CalField::PositionTarget)
        }         else if index == 2 {
            Some(CalField::OpenLoopPosition)
        } else {
            None
        }
    }
}

impl FocField {
    /// The place of the field in the list of fields.
    pub open spec fn spec_index(&self) -> u8 {
        match self {
            FocField::Offset => 0u8,
            FocField::DCurrent => 1u8,
            FocField::QCurrent => 2u8,
            FocField::QRequest => 3u8,
            FocField::PosSetpoint => 4u8,
            FocField::VelSetpoint => 5u8,
            FocField::VelIntegral => 6u8,
            FocField::DIntegral => 7u8,
            FocField::QIntegral => 8u8,
            FocField::Position => 9u8,
            FocField::FilteredPosition => 10u8,
            FocField::Velocity => 11u8,
        }
    }

    /// The field at a place in the list of fields, if there is one.
    pub open spec fn spec_from_index(index: u8) -> Option<FocField> {
        if index == 0 {
            Some(FocField::Offset)
        }         else if index == 1 {
            Some(FocField::DCurrent)
        }         else if index == 2 {
            Some(FocField::QCurrent)
        }         else if index == 3 {
            Some(FocField::QRequest)
        }         else if index == 4 {
            Some(FocField::PosSetpoint)
        }         else if index == 5 {
            Some(FocField::VelSetpoint)
        }         else if index == 6 {
            Some(FocField::VelIntegral)
        }         else if index == 7 {
            Some(FocField::DIntegral)
        }         else if index == 8 {
            Some(FocField::QIntegral)
        }         else if index == 9 {
            Some(FocField::Position)
        }         else if index == 10 {
            Some(FocField::FilteredPosition)
        }         else if index == 11 {
            Some(FocField::Velocity)
        } else {
            None
        }
    }

    #[verifier::when_used_as_spec(spec_index)]
    pub fn index(&self) -> (r: u8)
        ensures
            r == self.spec_index(),
            FocField::spec_from_index(r) == Some(*self),
    {
        match self {
            FocField::Offset => 0,
            FocField::DCurrent => 1,
            FocField::QCurrent => 2,
            FocField::QRequest => 3,
            FocField::PosSetpoint => 4,
            FocField::VelSetpoint => 5,
            FocField::VelIntegral => 6,
            FocField::DIntegral => 7,
            FocField::QIntegral => 8,
            FocField::Position => 9,
            FocField::FilteredPosition => 10,
            FocField::Velocity => 11,
        }
    }

    #[verifier::when_used_as_spec(spec_from_index)]
    pub fn from_index(index: u8) -> (r: Option<FocField>)
        ensures
            r == FocField::spec_from_index(index),
    {
        if index == 0 {
            Some(FocField::Offset)
        }         else if index == 1 {
            Some(FocField::DCurrent)
        }         else if index == 2 {
            Some(FocField::QCurrent)
        }         else if index == 3 {
            Some(FocField::QRequest)
        }         else if index == 4 {
            Some(FocField::PosSetpoint)
        }         else if index == 5 {
            Some(FocField::VelSetpoint)
        }         else if index == 6 {
            Some(FocField::VelIntegral)
        }         else if index == 7 {
            Some(FocField::DIntegral)
        }         else if index == 8 {
            Some(FocField::QIntegral)
        }         else if index == 9 {
            Some(FocField::Position)
        }         else if index == 10 {
            Some(FocField::FilteredPosition)
        }         else if index == 11 {
            Some(FocField::Velocity)
        } else {
            None
        }
    }
}

impl ConfigField {
    /// The place of a scalar field in the list of fields; the two kinds
    /// of entries of the compensation come after the scalars.
    pub open spec fn spec_index(&self) -> u8 {
        match self {
            ConfigField::MotorLenPerCycle => 0u8,
            ConfigField::EncoderLenPerCycle => 1u8,
            ConfigField::CalibrationLength => 2u8,
            ConfigField::CalibrationSpeed => 3u8,
            ConfigField::OpenLoopVoltage => 4u8,
            ConfigField::Uvlo => 5u8,
            ConfigField::SwitchingFrequency => 6u8,
            ConfigField::SwitchingClockFrequency => 7u8,
            ConfigField::CycleDeadtime => 8u8,
            ConfigField::ControlFrequency => 9u8,
            ConfigField::CurrentControllerKP => 10u8,
            ConfigField::CurrentControllerKI => 11u8,
            ConfigField::VelControllerKP => 12u8,
            ConfigField::VelControllerKI => 13u8,
            ConfigField::PosControllerKP => 14u8,
            ConfigField::CurrLimit => 15u8,
            ConfigField::HardCurrLimit => 16u8,
            ConfigField::CompBias(_) => 17u8,
            ConfigField::CompMatrix(_, _) => 18u8,
        }
    }

    /// The scalar field at a place in the list of fields, if there is one.
    pub open spec fn spec_scalar(index: u8) -> Option<ConfigField> {
        if index == 0 {
            Some(ConfigField::MotorLenPerCycle)
        }         else if index == 1 {
            Some(ConfigField::EncoderLenPerCycle)
        }         else if index == 2 {
            Some(ConfigField::CalibrationLength)
        }         else if index == 3 {
            Some(ConfigField::CalibrationSpeed)
        }         else if index == 4 {
            Some(ConfigField::OpenLoopVoltage)
        }         else if index == 5 {
            Some(ConfigField::Uvlo)
        }         else if index == 6 {
            Some(ConfigField::SwitchingFrequency)
        }         else if index == 7 {
            Some(ConfigField::SwitchingClockFrequency)
        }         else if index == 8 {
            Some(ConfigField::CycleDeadtime)
        }         else if index == 9 {
            Some(ConfigField::ControlFrequency)
        }         else if index == 10 {
            Some(ConfigField::CurrentControllerKP)
        }         else if index == 11 {
            Some(ConfigField::CurrentControllerKI)
        }         else if index == 12 {
            Some(ConfigField::VelControllerKP)
        }         else if index == 13 {
            Some(ConfigField::VelControllerKI)
        }         else if index == 14 {
            Some(ConfigField::PosControllerKP)
        }         else if index == 15 {
            Some(ConfigField::CurrLimit)
        }         else if index == 16 {
            Some(ConfigField::HardCurrLimit)
        } else {
            None
        }
    }

    #[verifier::when_used_as_spec(spec_index)]
    pub fn index(&self) -> (r: u8)
        ensures
            r == self.spec_index(),
            r < 17 ==> ConfigField::spec_scalar(r) == Some(*self),
    {
        match self {
            ConfigField::MotorLenPerCycle => 0,
            ConfigField::EncoderLenPerCycle => 1,
            ConfigField::CalibrationLength => 2,
            ConfigField::CalibrationSpeed => 3,
            ConfigField::OpenLoopVoltage => 4,
            ConfigField::Uvlo => 5,
            ConfigField::SwitchingFrequency => 6,
            ConfigField::SwitchingClockFrequency => 7,
            ConfigField::CycleDeadtime => 8,
            ConfigField::ControlFrequency => 9,
            ConfigField::CurrentControllerKP => 10,
            ConfigField::CurrentControllerKI => 11,
            ConfigField::VelControllerKP => 12,
            ConfigField::VelControllerKI => 13,
            ConfigField::PosControllerKP => 14,
            ConfigField::CurrLimit => 15,
            ConfigField::HardCurrLimit => 16,
            ConfigField::CompBias(_) => 17,
            ConfigField::CompMatrix(_, _) => 18,
        }
    }

    #[verifier::when_used_as_spec(spec_scalar)]
    pub fn scalar(index: u8) -> (r: Option<ConfigField>)
        ensures
            r == ConfigField::spec_scalar(index),
    {
        if index == 0 {
            Some(ConfigField::MotorLenPerCycle)
        }         else if index == 1 {
            Some(ConfigField::EncoderLenPerCycle)
        }         else if index == 2 {
            Some(ConfigField::CalibrationLength)
        }         else if index == 3 {
            Some(ConfigField::CalibrationSpeed)
        }         else if index == 4 {
            Some(ConfigField::OpenLoopVoltage)
        }         else if index == 5 {
            Some(ConfigField::Uvlo)
        }         else if index == 6 {
            Some(ConfigField::SwitchingFrequency)
        }         else if index == 7 {
            Some(ConfigField::SwitchingClockFrequency)
        }         else if index == 8 {
            Some(ConfigField::CycleDeadtime)
        }         else if index == 9 {
            Some(ConfigField::ControlFrequency)
        }         else if index == 10 {
            Some(ConfigField::CurrentControllerKP)
        }         else if index == 11 {
            Some(ConfigField::CurrentControllerKI)
        }         else if index == 12 {
            Some(ConfigField::VelControllerKP)
        }         else if index == 13 {
            Some(ConfigField::VelControllerKI)
        }         else if index == 14 {
            Some(ConfigField::PosControllerKP)
        }         else if index == 15 {
            Some(ConfigField::CurrLimit)
        }         else if index == 16 {
            Some(ConfigField::HardCurrLimit)
        } else {
            None
        }
    }
}

/// The address of a value that can be read.
#[derive(Clone, Copy, Debug, PartialEq, Eq, Structural, Hash)]
pub enum ContainerGetter {
    /// A raw analog reading, by channel.
    Adc(u8),
    /// A duty of the last command, by phase.
    Pwm(u8),
    Controller(ControllerField),
    Update(UpdateField),
    Encoder(EncoderField),
    Config(ConfigField),
}

/// A value to write, with the address to write it to.
#[derive(Clone, Copy, Debug, PartialEq, Eq, Structural)]
pub struct ContainerSetter {
    pub address: ContainerGetter,
    pub value: Value,
}

/// The state of the drive as the host sees it.
pub struct Container<'a> {
    pub adc: &'a [u16; 16],
    pub pwm: &'a [u16; 3],
    pub controller: &'a Controller,
    pub update: &'a ControllerUpdate,
    pub encoder: &'a EncoderState,
    pub config: &'a Config,
}

/// The value of a field of the settings, if its indices are in range.
pub open spec fn config_value(config: &Config, field: ConfigField) -> Option<Fixed> {
    match field {
        ConfigField::MotorLenPerCycle => Some(config.motor_len_per_cycle),
        ConfigField::EncoderLenPerCycle => Some(config.encoder_len_per_cycle),
        ConfigField::CalibrationLength => Some(config.calibration_length),
        ConfigField::CalibrationSpeed => Some(config.calibration_speed),
        ConfigField::OpenLoopVoltage => Some(config.open_loop_voltage),
        ConfigField::Uvlo => Some(config.uvlo),
        ConfigField::SwitchingFrequency => Some(config.switching_frequency),
        ConfigField::SwitchingClockFrequency => Some(config.switching_clock_frequency),
        ConfigField::CycleDeadtime => Some(config.cycle_deadtime),
        ConfigField::ControlFrequency => Some(config.control_frequency),
        ConfigField::CurrentControllerKP => Some(config.current_controller_k_p),
        ConfigField::CurrentControllerKI => Some(config.current_controller_k_i),
        ConfigField::VelControllerKP => Some(config.vel_controller_k_p),
        ConfigField::VelControllerKI => Some(config.vel_controller_k_i),
        ConfigField::PosControllerKP => Some(config.pos_controller_k_p),
        ConfigField::CurrLimit => Some(config.curr_limit),
        ConfigField::HardCurrLimit => Some(config.hard_curr_limit),
        ConfigField::CompBias(i) => if i < 8 {
            Some(config.comp_bias[i as int])
        } else {
            None
        },
        ConfigField::CompMatrix(j, i) => if j < 8 && i < 8 {
            Some(config.comp_matrix[j as int][i as int])
        } else {
            None
        },
    }
}

/// The settings with a scalar field set to `value`; none for an entry of
/// the compensation, which cannot be written.
pub open spec fn config_with(config: &Config, field: ConfigField, value: Fixed) -> Option<Config> {
    match field {
        ConfigField::MotorLenPerCycle => Some(Config { motor_len_per_cycle: value, ..*config }),
        ConfigField::EncoderLenPerCycle => Some(Config { encoder_len_per_cycle: value, ..*config }),
        ConfigField::CalibrationLength => Some(Config { calibration_length: value, ..*config }),
        ConfigField::CalibrationSpeed => Some(Config { calibration_speed: value, ..*config }),
        ConfigField::OpenLoopVoltage => Some(Config { open_loop_voltage: value, ..*config }),
        ConfigField::Uvlo => Some(Config { uvlo: value, ..*config }),
        ConfigField::SwitchingFrequency => Some(Config { switching_frequency: value, ..*config }),
        ConfigField::SwitchingClockFrequency => Some(Config { switching_clock_frequency: value, ..*config }),
        ConfigField::CycleDeadtime => Some(Config { cycle_deadtime: value, ..*config }),
        ConfigField::ControlFrequency => Some(Config { control_frequency: value, ..*config }),
        ConfigField::CurrentControllerKP => Some(Config { current_controller_k_p: value, ..*config }),
        ConfigField::CurrentControllerKI => Some(Config { current_controller_k_i: value, ..*config }),
        ConfigField::VelControllerKP => Some(Config { vel_controller_k_p: value, ..*config }),
        ConfigField::VelControllerKI => Some(Config { vel_controller_k_i: value, ..*config }),
        ConfigField::PosControllerKP => Some(Config { pos_controller_k_p: value, ..*config }),
        ConfigField::CurrLimit => Some(Config { curr_limit: value, ..*config }),
        ConfigField::HardCurrLimit => Some(Config { hard_curr_limit: value, ..*config }),
        ConfigField::CompBias(_) => None,
        ConfigField::CompMatrix(_, _) => None,
    }
}

/// The value of a field of field-oriented control.
pub open spec fn foc_value(foc: &FieldOrientedControl, field: FocField) -> Fixed {
    match field {
        FocField::Offset => foc.cal.offset,
        FocField::DCurrent => foc.dq_currents.d,
        FocField::QCurrent => foc.dq_currents.q,
        FocField::QRequest => foc.q_req,
        FocField::PosSetpoint => foc.pos_controller.pos_setpoint,
        FocField::VelSetpoint => foc.pos_controller.vel_setpoint,
        FocField::VelIntegral => foc.pos_controller.vel_controller.i_error,
        FocField::DIntegral => foc.current_controller.d_controller.i_error,
        FocField::QIntegral => foc.current_controller.q_controller.i_error,
        FocField::Position => foc.encoder_output.position,
        FocField::FilteredPosition => foc.encoder_output.filtered_position,
        FocField::Velocity => foc.encoder_output.velocity,
    }
}

/// Field-oriented control with a field set to `value`; none for a field
/// that only reports what was measured or asked for.
pub open spec fn foc_with(
    foc: &FieldOrientedControl,
    field: FocField,
    value: Fixed,
) -> Option<FieldOrientedControl> {
    match field {
        FocField::Offset => Some(
            FieldOrientedControl { cal: EncoderCalibration { offset: value }, ..*foc },
        ),
        FocField::PosSetpoint => Some(
            FieldOrientedControl {
                pos_controller: PosController { pos_setpoint: value, ..foc.pos_controller },
                ..*foc
            },
        ),
        FocField::VelIntegral => Some(
            FieldOrientedControl {
                pos_controller: PosController {
                    vel_controller: PIController {
                        i_error: value,
                        ..foc.pos_controller.vel_controller
                    },
                    ..foc.pos_controller
                },
                ..*foc
            },
        ),
        FocField::DIntegral => Some(
            FieldOrientedControl {
                current_controller: DQCurrentController {
                    d_controller: PIController {
                        i_error: value,
                        ..foc.current_controller.d_controller
                    },
                    ..foc.current_controller
                },
                ..*foc
            },
        ),
        FocField::QIntegral => Some(
            FieldOrientedControl {
                current_controller: DQCurrentController {
                    q_controller: PIController {
                        i_error: value,
                        ..foc.current_controller.q_controller
                    },
                    ..foc.current_controller
                },
                ..*foc
            },
        ),
        _ => None,
    }
}

impl ContainerGetter {
    /// The type of the value at the address.
    pub open spec fn spec_kind(&self) -> Kind {
        match self {
            ContainerGetter::Adc(_) => Kind::U16,
            ContainerGetter::Pwm(_) => Kind::U16,
            ContainerGetter::Controller(ControllerField::Cal(CalField::Wait)) => Kind::U32,
            _ => Kind::Real,
        }
    }

    #[verifier::when_used_as_spec(spec_kind)]
    pub fn kind(&self) -> (r: Kind)
        ensures
            r == self.spec_kind(),
    {
        match self {
            ContainerGetter::Adc(_) => Kind::U16,
            ContainerGetter::Pwm(_) => Kind::U16,
            ContainerGetter::Controller(ControllerField::Cal(CalField::Wait)) => Kind::U32,
            _ => Kind::Real,
        }
    }
}

impl<'a> Container<'a> {
    /// The value at an address, if there is one: the index is in range and
    /// the phase that the address speaks of is the present one.
    pub open spec fn value_at(&self, getter: ContainerGetter) -> Option<Value> {
        match getter {
            ContainerGetter::Adc(i) => if i < 16 {
                Some(Value::U16(self.adc[i as int]))
            } else {
                None
            },
            ContainerGetter::Pwm(i) => if i < 3 {
                Some(Value::U16(self.pwm[i as int]))
            } else {
                None
            },
            ContainerGetter::Controller(field) => match field {
                ControllerField::Residual(i) => if i < 3 {
                    Some(Value::Real(self.controller.svm.residuals[i as int]))
                } else {
                    None
                },
                ControllerField::Cal(f) => match self.controller.voltage_controller {
                    VoltageController::Cal(c) => match f {
                        CalField::Wait => match c.state {
                            EncoderCalibrationState::Start(wait) => Some(Value::U32(wait)),
                            _ => None,
                        },
                        CalField::PositionTarget => Some(Value::Real(c.position_target)),
                        CalField::OpenLoopPosition => Some(Value::Real(c.open_loop.position)),
                    },
                    VoltageController::Foc(_) => None,
                },
                ControllerField::Foc(f) => match self.controller.voltage_controller {
                    VoltageController::Cal(_) => None,
                    VoltageController::Foc(foc) => Some(Value::Real(foc_value(&foc, f))),
                },
            },
            ContainerGetter::Update(field) => Some(
                Value::Real(
                    match field {
                        UpdateField::PhaseCurrentU => self.update.phase_currents.u,
                        UpdateField::PhaseCurrentV => self.update.phase_currents.v,
                        UpdateField::PhaseCurrentW => self.update.phase_currents.w,
                        UpdateField::BusVoltage => self.update.bus_voltage,
                    },
                ),
            ),
            ContainerGetter::Encoder(field) => match self.encoder {
                EncoderState::Calibrating(_) => None,
                EncoderState::Running(e) => match field {
                    EncoderField::Normalized(i) => if i < 8 {
                        Some(Value::Real(e.normalized[i as int]))
                    } else {
                        None
                    },
                    EncoderField::Compensated(i) => if i < 8 {
                        Some(Value::Real(e.compensated[i as int]))
                    } else {
                        None
                    },
                    EncoderField::Unwrapped(i) => if i < 4 {
                        Some(Value::Real(e.unwrapped[i as int]))
                    } else {
                        None
                    },
                    EncoderField::Position => Some(Value::Real(e.position)),
                    EncoderField::FilteredPosition => Some(Value::Real(e.filtered_position)),
                    EncoderField::Velocity => Some(Value::Real(e.velocity)),
                },
            },
            ContainerGetter::Config(field) => match config_value(self.config, field) {
                Some(v) => Some(Value::Real(v)),
                None => None,
            },
        }
    }

    /// Reads the value at an address. The read fails where the address has
    /// no value at present.
    pub fn get(&self, getter: ContainerGetter) -> (r: Result<Value, ()>)
        ensures
            match self.value_at(getter) {
                Some(v) => r == Ok::<Value, ()>(v),
                None => r is Err,
            },
    {
        match getter {
            ContainerGetter::Adc(i) => {
                if i < 16 {
                    Ok(Value::U16(self.adc[i as usize]))
                } else {
                    Err(())
                }
            },
            ContainerGetter::Pwm(i) => {
                if i < 3 {
                    Ok(Value::U16(self.pwm[i as usize]))
                } else {
                    Err(())
                }
            },
            ContainerGetter::Controller(field) => match field {
                ControllerField::Residual(i) => {
                    if i < 3 {
                        Ok(Value::Real(self.controller.svm.residuals[i as usize]))
                    } else {
                        Err(())
                    }
                },
                ControllerField::Cal(f) => match &self.controller.voltage_controller {
                    VoltageController::Cal(c) => match f {
                        CalField::Wait => match c.state {
                            EncoderCalibrationState::Start(wait) => Ok(Value::U32(wait)),
                            _ => Err(()),
                        },
                        CalField::PositionTarget => Ok(Value::Real(c.position_target)),
                        CalField::OpenLoopPosition => Ok(Value::Real(c.open_loop.position)),
                    },
                    VoltageController::Foc(_) => Err(()),
                },
                ControllerField::Foc(f) => match &self.controller.voltage_controller {
                    VoltageController::Cal(_) => Err(()),
                    VoltageController::Foc(foc) => Ok(Value::Real(read_foc(foc, f))),
                },
            },
            ContainerGetter::Update(field) => Ok(
                Value::Real(
                    match field {
                        UpdateField::PhaseCurrentU => self.update.phase_currents.u,
                        UpdateField::PhaseCurrentV => self.update.phase_currents.v,
                        UpdateField::PhaseCurrentW => self.update.phase_currents.w,
                        UpdateField::BusVoltage => self.update.bus_voltage,
                    },
                ),
            ),
            ContainerGetter::Encoder(field) => match self.encoder {
                EncoderState::Calibrating(_) => Err(()),
                EncoderState::Running(e) => match field {
                    EncoderField::Normalized(i) => {
                        if i < 8 {
                            Ok(Value::Real(e.normalized[i as usize]))
                        } else {
                            Err(())
                        }
                    },
                    EncoderField::Compensated(i) => {
                        if i < 8 {
                            Ok(Value::Real(e.compensated[i as usize]))
                        } else {
                            Err(())
                        }
                    },
                    EncoderField::Unwrapped(i) => {
                        if i < 4 {
                            Ok(Value::Real(e.unwrapped[i as usize]))
                        } else {
                            Err(())
                        }
                    },
                    EncoderField::Position => Ok(Value::Real(e.position)),
                    EncoderField::FilteredPosition => Ok(Value::Real(e.filtered_position)),
                    EncoderField::Velocity => Ok(Value::Real(e.velocity)),
                },
            },
            ContainerGetter::Config(field) => match read_config(self.config, field) {
                Some(v) => Ok(Value::Real(v)),
                None => Err(()),
            },
        }
    }
}

fn read_foc(foc: &FieldOrientedControl, field: FocField) -> (r: Fixed)
    ensures
        r == foc_value(foc, field),
{
    match field {
        FocField::Offset => foc.cal.offset,
        FocField::DCurrent => foc.dq_currents.d,
        FocField::QCurrent => foc.dq_currents.q,
        FocField::QRequest => foc.q_req,
        FocField::PosSetpoint => foc.pos_controller.pos_setpoint,
        FocField::VelSetpoint => foc.pos_controller.vel_setpoint,
        FocField::VelIntegral => foc.pos_controller.vel_controller.i_error,
        FocField::DIntegral => foc.current_controller.d_controller.i_error,
        FocField::QIntegral => foc.current_controller.q_controller.i_error,
        FocField::Position => foc.encoder_output.position,
        FocField::FilteredPosition => foc.encoder_output.filtered_position,
        FocField::Velocity => foc.encoder_output.velocity,
    }
}

fn read_config(config: &Config, field: ConfigField) -> (r: Option<Fixed>)
    ensures
        r == config_value(config, field),
{
    match field {
        ConfigField::MotorLenPerCycle => Some(config.motor_len_per_cycle),
        ConfigField::EncoderLenPerCycle => Some(config.encoder_len_per_cycle),
        ConfigField::CalibrationLength => Some(config.calibration_length),
        ConfigField::CalibrationSpeed => Some(config.calibration_speed),
        ConfigField::OpenLoopVoltage => Some(config.open_loop_voltage),
        ConfigField::Uvlo => Some(config.uvlo),
        ConfigField::SwitchingFrequency => Some(config.switching_frequency),
        ConfigField::SwitchingClockFrequency => Some(config.switching_clock_frequency),
        ConfigField::CycleDeadtime => Some(config.cycle_deadtime),
        ConfigField::ControlFrequency => Some(config.control_frequency),
        ConfigField::CurrentControllerKP => Some(config.current_controller_k_p),
        ConfigField::CurrentControllerKI => Some(config.current_controller_k_i),
        ConfigField::VelControllerKP => Some(config.vel_controller_k_p),
        ConfigField::VelControllerKI => Some(config.vel_controller_k_i),
        ConfigField::PosControllerKP => Some(config.pos_controller_k_p),
        ConfigField::CurrLimit => Some(config.curr_limit),
        ConfigField::HardCurrLimit => Some(config.hard_curr_limit),
        ConfigField::CompBias(i) => {
            if i < 8 {
                Some(config.comp_bias[i as usize])
            } else {
                None
            }
        },
        ConfigField::CompMatrix(j, i) => {
            if j < 8 && i < 8 {
                Some(config.comp_matrix[j as usize][i as usize])
            } else {
                None
            }
        },
    }
}

fn write_config(config: &mut Config, field: ConfigField, value: Fixed) -> (r: bool)
    ensures
        match config_with(old(config), field, value) {
            Some(next) => r && *final(config) == next,
            None => !r && *final(config) == *old(config),
        },
{
    match field {
        ConfigField::MotorLenPerCycle => {
            config.motor_len_per_cycle = value;
            true
        },
        ConfigField::EncoderLenPerCycle => {
            config.encoder_len_per_cycle = value;
            true
        },
        ConfigField::CalibrationLength => {
            config.calibration_length = value;
            true
        },
        ConfigField::CalibrationSpeed => {
            config.calibration_speed = value;
            true
        },
        ConfigField::OpenLoopVoltage => {
            config.open_loop_voltage = value;
            true
        },
        ConfigField::Uvlo => {
            config.uvlo = value;
            true
        },
        ConfigField::SwitchingFrequency => {
            config.switching_frequency = value;
            true
        },
        ConfigField::SwitchingClockFrequency => {
            config.switching_clock_frequency = value;
            true
        },
        ConfigField::CycleDeadtime => {
            config.cycle_deadtime = value;
            true
        },
        ConfigField::ControlFrequency => {
            config.control_frequency = value;
            true
        },
        ConfigField::CurrentControllerKP => {
            config.current_controller_k_p = value;
            true
        },
        ConfigField::CurrentControllerKI => {
            config.current_controller_k_i = value;
            true
        },
        ConfigField::VelControllerKP => {
            config.vel_controller_k_p = value;
            true
        },
        ConfigField::VelControllerKI => {
            config.vel_controller_k_i = value;
            true
        },
        ConfigField::PosControllerKP => {
            config.pos_controller_k_p = value;
            true
        },
        ConfigField::CurrLimit => {
            config.curr_limit = value;
            true
        },
        ConfigField::HardCurrLimit => {
            config.hard_curr_limit = value;
            true
        },
        ConfigField::CompBias(_) => false,
        ConfigField::CompMatrix(_, _) => false,
    }
}

fn write_foc(foc: &mut FieldOrientedControl, field: FocField, value: Fixed) -> (r: bool)
    ensures
        match foc_with(old(foc), field, value) {
            Some(next) => r && *final(foc) == next,
            None => !r && *final(foc) == *old(foc),
        },
{
    match field {
        FocField::Offset => {
            foc.cal.offset = value;
            true
        },
        FocField::PosSetpoint => {
            foc.pos_controller.pos_setpoint = value;
            true
        },
        FocField::VelIntegral => {
            foc.pos_controller.vel_controller.i_error = value;
            true
        },
        FocField::DIntegral => {
            foc.current_controller.d_controller.i_error = value;
            true
        },
        FocField::QIntegral => {
            foc.current_controller.q_controller.i_error = value;
            true
        },
        _ => false,
    }
}

impl ContainerSetter {
    /// What the write makes of the controller and the settings, if it can
    /// be done: the value is a real number, and the address is a scalar of
    /// the settings, or a setpoint, an offset or a sum of errors of
    /// field-oriented control while that is in charge.
    pub open spec fn written(&self, controller: &Controller, config: &Config) -> Option<
        (VoltageController, Config),
    > {
        match (self.address, self.value) {
            (ContainerGetter::Config(field), Value::Real(v)) => match config_with(
                config,
                field,
                v,
            ) {
                Some(next) => Some((controller.voltage_controller, next)),
                None => None,
            },
            (
                ContainerGetter::Controller(ControllerField::Foc(field)),
                Value::Real(v),
            ) => match controller.voltage_controller {
                VoltageController::Foc(foc) => match foc_with(&foc, field, v) {
                    Some(next) => Some((VoltageController::Foc(next), *config)),
                    None => None,
                },
                VoltageController::Cal(_) => None,
            },
            _ => None,
        }
    }

    /// Writes the value to its address. Where the write cannot be done it
    /// fails and changes nothing.
    pub fn apply(&self, controller: &mut Controller, config: &mut Config) -> (r: Result<(), ()>)
        ensures
            final(controller).svm == old(controller).svm,
            match self.written(old(controller), old(config)) {
                Some((vc, cfg)) => {
                    &&& r is Ok
                    &&& final(controller).voltage_controller == vc
                    &&& *final(config) == cfg
                },
                None => {
                    &&& r is Err
                    &&& final(controller).voltage_controller == old(controller).voltage_controller
                    &&& *final(config) == *old(config)
                },
            },
    {
        let value = match self.value {
            Value::Real(v) => v,
            _ => {
                return Err(());
            },
        };
        let done = match self.address {
            ContainerGetter::Config(field) => write_config(config, field, value),
            ContainerGetter::Controller(ControllerField::Foc(field)) => {
                match &mut controller.voltage_controller {
                    VoltageController::Foc(foc) => write_foc(foc, field, value),
                    VoltageController::Cal(_) => false,
                }
            },
            _ => false,
        };
        if done {
            Ok(())
        } else {
            Err(())
        }
    }
}

/// A value that is read has the type of its address.
pub proof fn lemma_value_has_kind(container: Container, getter: ContainerGetter)
    requires
        container.value_at(getter) is Some,
    ensures
        container.value_at(getter)->0.kind() == getter.kind(),
{
}

/// A value that has been written is the value that is read back, whatever
/// else the host can see.
pub proof fn lemma_written_is_read_back(
    setter: ContainerSetter,
    before: Container,
    after: Container,
)
    requires
        setter.written(before.controller, before.config) matches Some((vc, cfg))
            && after.controller.voltage_controller == vc && *after.config == cfg,
    ensures
        after.value_at(setter.address) == Some(setter.value),
{
}

/// The number of addresses whose indices are in range.
pub const ADDRESSES: u8 = 153;

impl ContainerGetter {
    /// Whether every index of the address is in range.
    pub open spec fn in_range(&self) -> bool {
        match self {
            ContainerGetter::Adc(i) => *i < 16,
            ContainerGetter::Pwm(i) => *i < 3,
            ContainerGetter::Controller(ControllerField::Residual(i)) => *i < 3,
            ContainerGetter::Encoder(EncoderField::Normalized(i)) => *i < 8,
            ContainerGetter::Encoder(EncoderField::Compensated(i)) => *i < 8,
            ContainerGetter::Encoder(EncoderField::Unwrapped(i)) => *i < 4,
            ContainerGetter::Config(ConfigField::CompBias(i)) => *i < 8,
            ContainerGetter::Config(ConfigField::CompMatrix(j, i)) => *j < 8 && *i < 8,
            _ => true,
        }
    }

    /// The place of the address among all addresses, walking the state of
    /// the drive from its first leaf to its last; none for an address with
    /// an index out of range.
    pub open spec fn spec_ordinal(&self) -> Option<u8> {
        if !self.in_range() {
            None
        } else {
            Some(
                match self {
                    ContainerGetter::Adc(i) => *i,
                    ContainerGetter::Pwm(i) => (16 + *i) as u8,
                    ContainerGetter::Controller(f) => match f {
                        ControllerField::Residual(i) => (19 + *i) as u8,
                        ControllerField::Cal(c) => (22 + c.index()) as u8,
                        ControllerField::Foc(x) => (25 + x.index()) as u8,
                    },
                    ContainerGetter::Update(f) => (37 + f.index()) as u8,
                    ContainerGetter::Encoder(f) => match f {
                        EncoderField::Normalized(i) => (41 + *i) as u8,
                        EncoderField::Compensated(i) => (49 + *i) as u8,
                        EncoderField::Unwrapped(i) => (57 + *i) as u8,
                        EncoderField::Position => 61u8,
                        EncoderField::FilteredPosition => 62u8,
                        EncoderField::Velocity => 63u8,
                    },
                    ContainerGetter::Config(f) => match f {
                        ConfigField::CompBias(i) => (81 + *i) as u8,
                        ConfigField::CompMatrix(j, i) => (89 + 8 * *j + *i) as u8,
                        _ => (64 + f.index()) as u8,
                    },
                },
            )
        }
    }

    /// The address at a place among all addresses, if there is one.
    pub open spec fn spec_at(n: u8) -> Option<ContainerGetter> {
        if n < 16 {
            Some(ContainerGetter::Adc(n))
        } else if n < 19 {
            Some(ContainerGetter::Pwm((n - 16) as u8))
        } else if n < 22 {
            Some(ContainerGetter::Controller(ControllerField::Residual((n - 19) as u8)))
        } else if n < 25 {
            match CalField::from_index((n - 22) as u8) {
                Some(f) => Some(ContainerGetter::Controller(ControllerField::Cal(f))),
                None => None,
            }
        } else if n < 37 {
            match FocField::from_index((n - 25) as u8) {
                Some(f) => Some(ContainerGetter::Controller(ControllerField::Foc(f))),
                None => None,
            }
        } else if n < 41 {
            match UpdateField::from_index((n - 37) as u8) {
                Some(f) => Some(ContainerGetter::Update(f)),
                None => None,
            }
        } else if n < 49 {
            Some(ContainerGetter::Encoder(EncoderField::Normalized((n - 41) as u8)))
        } else if n < 57 {
            Some(ContainerGetter::Encoder(EncoderField::Compensated((n - 49) as u8)))
        } else if n < 61 {
            Some(ContainerGetter::Encoder(EncoderField::Unwrapped((n - 57) as u8)))
        } else if n == 61 {
            Some(ContainerGetter::Encoder(EncoderField::Position))
        } else if n == 62 {
            Some(ContainerGetter::Encoder(EncoderField::FilteredPosition))
        } else if n == 63 {
            Some(ContainerGetter::Encoder(EncoderField::Velocity))
        } else if n < 81 {
            match ConfigField::scalar((n - 64) as u8) {
                Some(f) => Some(ContainerGetter::Config(f)),
                None => None,
            }
        } else if n < 89 {
            Some(ContainerGetter::Config(ConfigField::CompBias((n - 81) as u8)))
        } else if n < ADDRESSES {
            Some(
                ContainerGetter::Config(
                    ConfigField::CompMatrix(((n - 89) / 8) as u8, ((n - 89) % 8) as u8),
                ),
            )
        } else {
            None
        }
    }

    #[verifier::when_used_as_spec(spec_ordinal)]
    pub fn ordinal(&self) -> (r: Option<u8>)
        ensures
            r == self.spec_ordinal(),
    {
        match self {
            ContainerGetter::Adc(i) => {
                if *i < 16 {
                    Some(*i)
                } else {
                    None
                }
            },
            ContainerGetter::Pwm(i) => {
                if *i < 3 {
                    Some(16 + *i)
                } else {
                    None
                }
            },
            ContainerGetter::Controller(f) => match f {
                ControllerField::Residual(i) => {
                    if *i < 3 {
                        Some(19 + *i)
                    } else {
                        None
                    }
                },
                ControllerField::Cal(c) => Some(22 + c.index()),
                ControllerField::Foc(x) => Some(25 + x.index()),
            },
            ContainerGetter::Update(f) => Some(37 + f.index()),
            ContainerGetter::Encoder(f) => match f {
                EncoderField::Normalized(i) => {
                    if *i < 8 {
                        Some(41 + *i)
                    } else {
                        None
                    }
                },
                EncoderField::Compensated(i) => {
                    if *i < 8 {
                        Some(49 + *i)
                    } else {
                        None
                    }
                },
                EncoderField::Unwrapped(i) => {
                    if *i < 4 {
                        Some(57 + *i)
                    } else {
                        None
                    }
                },
                EncoderField::Position => Some(61),
                EncoderField::FilteredPosition => Some(62),
                EncoderField::Velocity => Some(63),
            },
            ContainerGetter::Config(f) => match f {
                ConfigField::CompBias(i) => {
                    if *i < 8 {
                        Some(81 + *i)
                    } else {
                        None
                    }
                },
                ConfigField::CompMatrix(j, i) => {
                    if *j < 8 && *i < 8 {
                        Some(89 + 8 * *j + *i)
                    } else {
                        None
                    }
                },
                _ => Some(64 + f.index()),
            },
        }
    }

    #[verifier::when_used_as_spec(spec_at)]
    pub fn at(n: u8) -> (r: Option<ContainerGetter>)
        ensures
            r == ContainerGetter::spec_at(n),
    {
        if n < 16 {
            Some(ContainerGetter::Adc(n))
        } else if n < 19 {
            Some(ContainerGetter::Pwm(n - 16))
        } else if n < 22 {
            Some(ContainerGetter::Controller(ControllerField::Residual(n - 19)))
        } else if n < 25 {
            match CalField::from_index(n - 22) {
                Some(f) => Some(ContainerGetter::Controller(ControllerField::Cal(f))),
                None => None,
            }
        } else if n < 37 {
            match FocField::from_index(n - 25) {
                Some(f) => Some(ContainerGetter::Controller(ControllerField::Foc(f))),
                None => None,
            }
        } else if n < 41 {
            match UpdateField::from_index(n - 37) {
                Some(f) => Some(ContainerGetter::Update(f)),
                None => None,
            }
        } else if n < 49 {
            Some(ContainerGetter::Encoder(EncoderField::Normalized(n - 41)))
        } else if n < 57 {
            Some(ContainerGetter::Encoder(EncoderField::Compensated(n - 49)))
        } else if n < 61 {
            Some(ContainerGetter::Encoder(EncoderField::Unwrapped(n - 57)))
        } else if n == 61 {
            Some(ContainerGetter::Encoder(EncoderField::Position))
        } else if n == 62 {
            Some(ContainerGetter::Encoder(EncoderField::FilteredPosition))
        } else if n == 63 {
            Some(ContainerGetter::Encoder(EncoderField::Velocity))
        } else if n < 81 {
            match ConfigField::scalar(n - 64) {
                Some(f) => Some(ContainerGetter::Config(f)),
                None => None,
            }
        } else if n < 89 {
            Some(ContainerGetter::Config(ConfigField::CompBias(n - 81)))
        } else if n < ADDRESSES {
            Some(ContainerGetter::Config(ConfigField::CompMatrix((n - 89) / 8, (n - 89) % 8)))
        } else {
            None
        }
    }

    /// Every address whose indices are in range, each once, in the order
    /// of their places.
    pub fn all() -> (r: Vec<ContainerGetter>)
        ensures
            r@.len() == ADDRESSES,
            forall|n: int|
                0 <= n < ADDRESSES ==> ContainerGetter::spec_at(n as u8) == Some(#[trigger] r@[n]),
    {
        let mut out: Vec<ContainerGetter> = Vec::new();
        let mut n: u8 = 0;
        while n < ADDRESSES
            invariant
                n <= ADDRESSES,
                out@.len() == n,
                forall|k: int|
                    0 <= k < n ==> ContainerGetter::spec_at(k as u8) == Some(#[trigger] out@[k]),
            decreases ADDRESSES - n,
        {
            proof {
                lemma_places_are_filled(n);
            }
            match ContainerGetter::at(n) {
                Some(g) => out.push(g),
                None => {},
            }
            n += 1;
        }
        out
    }
}

/// There is an address at every place below the number of addresses and at
/// no other, and its place is that place.
pub proof fn lemma_places_are_filled(n: u8)
    ensures
        ContainerGetter::spec_at(n) is Some <==> n < ADDRESSES,
        ContainerGetter::spec_at(n) matches Some(g) ==> g.spec_ordinal() == Some(n),
{
    if 89 <= n < ADDRESSES {
        let j = (n - 89) / 8;
        let i = (n - 89) % 8;
        assert(89 + 8 * j + i == n);
    }
}

/// Every address whose indices are in range has a place, and the address
/// at its place is that address: the addresses and their places match one
/// to one.
pub proof fn lemma_addresses_have_places(g: ContainerGetter)
    ensures
        g.spec_ordinal() is Some <==> g.in_range(),
        g.spec_ordinal() matches Some(n) ==> n < ADDRESSES && ContainerGetter::spec_at(n) == Some(g),
{
    match g {
        ContainerGetter::Config(ConfigField::CompMatrix(j, i)) => {
            if j < 8 && i < 8 {
                assert((8 * j + i) / 8 == j);
                assert((8 * j + i) % 8 == i);
            }
        },
        ContainerGetter::Config(f) => {
            assert(f.index() < 17 ==> ConfigField::spec_scalar(f.index()) == Some(f));
        },
        _ => {},
    }
}

} // verus!
