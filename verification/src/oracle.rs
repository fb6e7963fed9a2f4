use vstd::prelude::*;

use crate::env::Env;
use crate::types::Symbol;

verus! {

/// What an oracle reports about a trigger condition.
#[derive(Clone, Debug, PartialEq, Eq)]
pub struct OracleResult {
    pub is_verified: bool,
    pub details: String,
}

/// Why an oracle could not report.
#[derive(Clone, Copy, Debug, PartialEq, Eq, Structural)]
pub enum OracleError {
    DataUnavailable,
}

/// A source of off-chain facts against which trigger conditions are checked.
pub trait OracleProvider {
    fn verify_condition(env: &Env, parameter: Symbol) -> Result<OracleResult, OracleError>;
}

/// Weather data feed. Placeholder: it confirms every condition.
pub struct WeatherOracle;

/// Flight status feed. Placeholder: it confirms every condition.
pub struct FlightOracle;

/// Price feed. Placeholder: it confirms every condition.
pub struct PriceOracle;

/// Smart-contract incident feed. Placeholder: it confirms every condition.
pub struct SmartContractOracle;

impl OracleProvider for WeatherOracle {
    fn verify_condition(env: &Env, parameter: Symbol) -> (result: Result<OracleResult, OracleError>)
        ensures
            result matches Ok(r) && r.is_verified && r.details@ == "weather condition verified"@,
    {
        Ok(OracleResult { is_verified: true, details: "weather condition verified".to_owned() })
    }
}

impl OracleProvider for FlightOracle {
    fn verify_condition(env: &Env, parameter: Symbol) -> (result: Result<OracleResult, OracleError>)
        ensures
            result matches Ok(r) && r.is_verified && r.details@ == "flight condition verified"@,
    {
        Ok(OracleResult { is_verified: true, details: "flight condition verified".to_owned() })
    }
}

impl OracleProvider for PriceOracle {
    fn verify_condition(env: &Env, parameter: Symbol) -> (result: Result<OracleResult, OracleError>)
        ensures
            result matches Ok(r) && r.is_verified && r.details@ == "price condition verified"@,
    {
        Ok(OracleResult { is_verified: true, details: "price condition verified".to_owned() })
    }
}

impl OracleProvider for SmartContractOracle {
    fn verify_condition(env: &Env, parameter: Symbol) -> (result: Result<OracleResult, OracleError>)
        ensures
            result matches Ok(r) && r.is_verified && r.details@ == "contract condition verified"@,
    {
        Ok(OracleResult { is_verified: true, details: "contract condition verified".to_owned() })
    }
}

} // verus!
