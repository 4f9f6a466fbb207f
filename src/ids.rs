//! Identifier generation for stored categories and novels.

use vstd::prelude::*;

verus! {

/// rs-snowflake's generator, held opaquely by [`IdGenerator`].
#[verifier::external_type_specification]
#[verifier::external_body]
pub struct ExSnowflakeIdGenerator(snowflake::SnowflakeIdGenerator);

/// A source of fresh 64-bit identifiers, handed to what stores new rows.
pub struct IdGenerator {
    inner: snowflake::SnowflakeIdGenerator,
}

/// Relies on `SnowflakeIdGenerator::new` of rs-snowflake, whose
/// documentation asks for machine and node numbers below 32.
#[verifier::external_body]
fn snowflake_new(machine_id: i32, node_id: i32) -> (r: snowflake::SnowflakeIdGenerator)
    requires
        0 <= machine_id < 32,
        0 <= node_id < 32,
{
    snowflake::SnowflakeIdGenerator::new(machine_id, node_id)
}

/// Relies on `SnowflakeIdGenerator::generate` of rs-snowflake. The value
/// depends on the clock, so nothing is stated of it.
#[verifier::external_body]
fn snowflake_generate(g: &mut snowflake::SnowflakeIdGenerator) -> (r: i64) {
    g.generate()
}

impl IdGenerator {
    /// A generator for the given machine and node (each below 32).
    pub fn new(machine_id: i32, node_id: i32) -> (r: Self)
        requires
            0 <= machine_id < 32,
            0 <= node_id < 32,
    {
        IdGenerator { inner: snowflake_new(machine_id, node_id) }
    }

    /// A new identifier.
    pub fn generate(&mut self) -> (r: i64) {
        snowflake_generate(&mut self.inner)
    }
}

} // verus!
