//! Plain values of the LoRaWAN protocol: keys, identifiers, addresses and data rates.

use vstd::prelude::*;

verus! {

/// Root key of a device, most significant byte first.
#[derive(Debug, Clone, Copy, PartialEq, Eq)]
pub struct AppKey(pub [u8; 16]);

/// Network session key, most significant byte first.
#[derive(Debug, Clone, Copy, PartialEq, Eq)]
pub struct NwkSKey(pub [u8; 16]);

/// Application session key, most significant byte first.
#[derive(Debug, Clone, Copy, PartialEq, Eq)]
pub struct AppSKey(pub [u8; 16]);

/// Device identifier, least significant byte first.
#[derive(Debug, Clone, Copy, PartialEq, Eq)]
pub struct DevEui(pub [u8; 8]);

/// Application identifier, least significant byte first.
#[derive(Debug, Clone, Copy, PartialEq, Eq)]
pub struct AppEui(pub [u8; 8]);

/// Device address in the order it has on the air.
#[derive(Debug, Clone, Copy, PartialEq, Eq)]
pub struct DevAddr(pub [u8; 4]);

/// Data rate, an index into the table of the region. A four-bit field on the air.
#[derive(Debug, Clone, Copy, PartialEq, Eq, Structural)]
pub enum DR {
    _0,
    _1,
    _2,
    _3,
    _4,
    _5,
    _6,
    _7,
    _8,
    _9,
    _10,
    _11,
    _12,
    _13,
    _14,
    _15,
}

impl DR {
    /// The number of the data rate.
    pub open spec fn index(self) -> u8 {
        match self {
            DR::_0 => 0,
            DR::_1 => 1,
            DR::_2 => 2,
            DR::_3 => 3,
            DR::_4 => 4,
            DR::_5 => 5,
            DR::_6 => 6,
            DR::_7 => 7,
            DR::_8 => 8,
            DR::_9 => 9,
            DR::_10 => 10,
            DR::_11 => 11,
            DR::_12 => 12,
            DR::_13 => 13,
            DR::_14 => 14,
            DR::_15 => 15,
        }
    }

    /// The number of the data rate.
    pub fn to_u8(self) -> (n: u8)
        ensures
            n == self.index(),
    {
        match self {
            DR::_0 => 0,
            DR::_1 => 1,
            DR::_2 => 2,
            DR::_3 => 3,
            DR::_4 => 4,
            DR::_5 => 5,
            DR::_6 => 6,
            DR::_7 => 7,
            DR::_8 => 8,
            DR::_9 => 9,
            DR::_10 => 10,
            DR::_11 => 11,
            DR::_12 => 12,
            DR::_13 => 13,
            DR::_14 => 14,
            DR::_15 => 15,
        }
    }

    /// The data rate whose number is the low four bits of `n`.
    pub fn from_u8(n: u8) -> (dr: DR)
        ensures
            dr.index() == n % 16,
    {
        match n % 16 {
            0 => DR::_0,
            1 => DR::_1,
            2 => DR::_2,
            3 => DR::_3,
            4 => DR::_4,
            5 => DR::_5,
            6 => DR::_6,
            7 => DR::_7,
            8 => DR::_8,
            9 => DR::_9,
            10 => DR::_10,
            11 => DR::_11,
            12 => DR::_12,
            13 => DR::_13,
            14 => DR::_14,
            _ => DR::_15,
        }
    }
}

/// Data rates are numbered in order, from 0 to 15.
pub proof fn lemma_data_rates_numbered()
    ensures
        DR::_0.index() == 0,
        DR::_1.index() == 1,
        DR::_2.index() == 2,
        DR::_3.index() == 3,
        DR::_4.index() == 4,
        DR::_5.index() == 5,
        DR::_6.index() == 6,
        DR::_7.index() == 7,
        DR::_8.index() == 8,
        DR::_9.index() == 9,
        DR::_10.index() == 10,
        DR::_11.index() == 11,
        DR::_12.index() == 12,
        DR::_13.index() == 13,
        DR::_14.index() == 14,
        DR::_15.index() == 15,
{
}

/// No two data rates have one number, and every number is below 16.
pub proof fn lemma_data_rate_told_by_number(a: DR, b: DR)
    ensures
        a.index() < 16,
        a.index() == b.index() <==> a == b,
{
}

} // verus!
