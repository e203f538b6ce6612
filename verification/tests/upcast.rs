use oneiros_engine::error::UpcastError;

#[derive(Debug, Clone, PartialEq)]
struct Wedge0 {
    name: String,
    value: u32,
}

#[derive(Debug, Clone, PartialEq)]
struct Wedge1 {
    name: String,
    value: u32,
    id: u64,
}

#[derive(Debug, Clone, PartialEq)]
struct Wedge2 {
    name: String,
    value: u32,
    id: u64,
    timestamp: u64,
}

impl From<Wedge0> for Wedge1 {
    fn from(previous: Wedge0) -> Self {
        let Wedge0 { name, value } = previous;
        Self { name, value, id: 42 }
    }
}

impl TryFrom<Wedge1> for Wedge2 {
    type Error = UpcastError;
    fn try_from(previous: Wedge1) -> Result<Self, Self::Error> {
        let Wedge1 { name, value, id } = previous;
        Ok(Self {
            name,
            value,
            id,
            timestamp: 100,
        })
    }
}

#[test]
fn bare_form_emits_from_impl() {
    let v0 = Wedge0 {
        name: "foo".into(),
        value: 5,
    };
    let v1: Wedge1 = v0.into();
    assert_eq!(v1.name, "foo");
    assert_eq!(v1.value, 5);
    assert_eq!(v1.id, 42);
}

#[test]
fn bare_form_blanket_lets_try_into_work() {
    let v0 = Wedge0 {
        name: "foo".into(),
        value: 5,
    };
    #[allow(clippy::unnecessary_fallible_conversions)]
    let v1: Wedge1 = v0.try_into().unwrap();
    assert_eq!(v1.id, 42);
}

#[test]
fn ok_form_emits_try_from_impl() {
    let v1 = Wedge1 {
        name: "foo".into(),
        value: 5,
        id: 7,
    };
    let v2 = Wedge2::try_from(v1).unwrap();
    assert_eq!(v2.name, "foo");
    assert_eq!(v2.value, 5);
    assert_eq!(v2.id, 7);
    assert_eq!(v2.timestamp, 100);
}

#[test]
fn chains_via_try_into_through_both_impls() {
    let v0 = Wedge0 {
        name: "foo".into(),
        value: 5,
    };
    #[allow(clippy::unnecessary_fallible_conversions)]
    let v1: Wedge1 = v0.try_into().unwrap();
    let v2: Wedge2 = v1.try_into().unwrap();
    assert_eq!(v2.name, "foo");
    assert_eq!(v2.id, 42);
    assert_eq!(v2.timestamp, 100);
}
