use std::convert::{TryFrom, TryInto};

use reskit_apierrors::{InvalidPVLost, PVLost};

#[test]
fn pvlost_test_pvlost() {
    assert_eq!(PVLost::Successful as i32, 0);
    assert_eq!(PVLost::RemoteError as i32, 1);
    assert_eq!(PVLost::LocalError as i32, 2);
    let result = PVLost::try_from("1");
    assert!(matches!(result, Ok(PVLost::RemoteError)));
    let result = PVLost::try_from("invalid");
    match result {
        Ok(..) => assert!(false, "got an OK, expected an error"),
        Err(..) => {}
    }
    let result = PVLost::try_from(2);
    assert!(matches!(result, Ok(PVLost::LocalError)));
    let result = PVLost::try_from(3);
    match result {
        Ok(..) => assert!(false, "got an OK, expected an error"),
        Err(..) => {}
    }
    let result: Result<PVLost, InvalidPVLost> = 2u8.try_into();
    assert!(matches!(result, Ok(PVLost::LocalError)));
    let result: Result<PVLost, InvalidPVLost> = "0".try_into();
    assert!(matches!(result, Ok(PVLost::Successful)));
}

#[test]
fn pvlost_codes_and_descriptions() {
    assert_eq!(PVLost::Successful.code(), 0);
    assert_eq!(PVLost::RemoteError.code(), 1);
    assert_eq!(PVLost::LocalError.code(), 2);
    assert!(PVLost::Successful.is_success());
    assert!(!PVLost::RemoteError.is_success());
    assert!(!PVLost::LocalError.is_success());
    assert_eq!(PVLost::Successful.description(), "Successful");
    assert_eq!(PVLost::RemoteError.description(), "Remote Error");
    assert_eq!(PVLost::LocalError.description(), "Local Error");
    assert_eq!(PVLost::LocalError.to_string(), "2: Local Error");
    assert_eq!(PVLost::Successful.to_string(), "0: Successful");
    assert!(PVLost::RemoteError.eq_code(1));
    assert!(!PVLost::RemoteError.eq_code(2));
}

#[test]
fn pvlost_rejects_what_is_no_code() {
    assert_eq!(PVLost::try_from(3u8), Err(InvalidPVLost));
    assert_eq!(PVLost::try_from(255u8), Err(InvalidPVLost));
    assert_eq!(PVLost::try_from(""), Err(InvalidPVLost));
    assert_eq!(PVLost::try_from("00"), Err(InvalidPVLost));
    assert_eq!(PVLost::try_from("3"), Err(InvalidPVLost));
    assert_eq!(PVLost::try_from("2"), Ok(PVLost::LocalError));
}

/// The loss attribution as a bare number on the wire.
struct Wire(PVLost);

impl serde::Serialize for Wire {
    fn serialize<S: serde::Serializer>(&self, serializer: S) -> Result<S::Ok, S::Error> {
        serializer.serialize_u8(self.0.code())
    }
}

struct WireVisitor;

impl<'de> serde::de::Visitor<'de> for WireVisitor {
    type Value = Wire;

    fn expecting(&self, formatter: &mut std::fmt::Formatter) -> std::fmt::Result {
        formatter.write_str("a u8 representing the pvlost code")
    }

    fn visit_u64<E: serde::de::Error>(self, v: u64) -> Result<Self::Value, E> {
        match PVLost::try_from(v as u8) {
            Ok(lost) => Ok(Wire(lost)),
            Err(_) => Err(E::invalid_value(serde::de::Unexpected::Unsigned(v), &self)),
        }
    }
}

impl<'de> serde::Deserialize<'de> for Wire {
    fn deserialize<D: serde::Deserializer<'de>>(deserializer: D) -> Result<Self, D::Error> {
        deserializer.deserialize_any(WireVisitor)
    }
}

#[test]
fn test_serde_as_u8() -> Result<(), serde_json::Error> {
    let pvlost: Wire = serde_json::from_str("2")?;
    assert_eq!(PVLost::LocalError, pvlost.0);
    assert_eq!(Some(2), serde_json::to_value(&Wire(PVLost::LocalError))?.as_u64());
    assert!(serde_json::from_str::<Wire>("3").is_err());
    Ok(())
}
