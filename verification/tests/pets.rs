use std::any::TypeId;
use std::sync::OnceLock;
use trait_cast_rs::AnyBox;
use trait_cast_rs::AnyMut;
use trait_cast_rs::AnyRef;
use trait_cast_rs::TraitcastTarget;
use trait_cast_rs::TraitcastableAny;
use trait_cast_rs::TraitcastableAnyInfra;
use trait_cast_rs::TraitcastableAnyInfraExt;
use trait_cast_rs::TraitcastableTo;

fn address<T: ?Sized>(value: &T) -> usize {
    std::ptr::from_ref(value).addr()
}

trait Dog {
    fn bark(&self) -> String;
    fn feed(&mut self);
}

trait Cat {
    fn meow(&self) -> String;
}

trait Mouse {
    fn squeak(&self) -> String;
}

struct Pet {
    name: String,
    meals: u32,
}

impl Pet {
    fn named(name: &str) -> Pet {
        Pet { name: name.to_string(), meals: 0 }
    }
}

impl Dog for Pet {
    fn bark(&self) -> String {
        format!("{} barks after {} meals", self.name, self.meals)
    }

    fn feed(&mut self) {
        self.meals += 1;
    }
}

impl Cat for Pet {
    fn meow(&self) -> String {
        format!("{} meows after {} meals", self.name, self.meals)
    }
}

impl TraitcastableTo<dyn Dog> for Pet {
    fn to_dyn_ref(input: &dyn TraitcastableAny) -> Option<&(dyn Dog + 'static)> {
        let casted: Option<&Self> = input.downcast_to_concrete_ref();
        casted.map(|selv| selv as &dyn Dog)
    }

    fn to_dyn_mut<'a>(
        input: &'a mut (dyn TraitcastableAny + 'static),
    ) -> Option<&'a mut (dyn Dog + 'static)> {
        let casted: Option<&mut Self> = input.downcast_to_concrete_mut();
        casted.map(|selv| selv as &mut dyn Dog)
    }

    fn to_dyn_box(
        input: Box<dyn TraitcastableAny>,
    ) -> Result<Box<dyn Dog>, Box<dyn TraitcastableAny>> {
        let casted: Result<Box<Self>, Box<dyn TraitcastableAny>> = input.downcast_to_concrete_box();
        casted.map(|selv| selv as Box<dyn Dog>)
    }
}

impl TraitcastableTo<dyn Cat> for Pet {
    fn to_dyn_ref(input: &dyn TraitcastableAny) -> Option<&(dyn Cat + 'static)> {
        let casted: Option<&Self> = input.downcast_to_concrete_ref();
        casted.map(|selv| selv as &dyn Cat)
    }

    fn to_dyn_mut<'a>(
        input: &'a mut (dyn TraitcastableAny + 'static),
    ) -> Option<&'a mut (dyn Cat + 'static)> {
        let casted: Option<&mut Self> = input.downcast_to_concrete_mut();
        casted.map(|selv| selv as &mut dyn Cat)
    }

    fn to_dyn_box(
        input: Box<dyn TraitcastableAny>,
    ) -> Result<Box<dyn Cat>, Box<dyn TraitcastableAny>> {
        let casted: Result<Box<Self>, Box<dyn TraitcastableAny>> = input.downcast_to_concrete_box();
        casted.map(|selv| selv as Box<dyn Cat>)
    }
}

static PET_TARGETS: OnceLock<Vec<TraitcastTarget>> = OnceLock::new();

impl TraitcastableAny for Pet {
    fn traitcast_targets(&self) -> &[TraitcastTarget] {
        PET_TARGETS.get_or_init(|| {
            vec![
                TraitcastTarget::from::<Pet, dyn Dog>("Dog"),
                TraitcastTarget::from::<Pet, dyn Cat>("Cat"),
            ]
        })
    }

    fn concrete_target(&self) -> TraitcastTarget {
        TraitcastTarget::concrete::<Self>("Pet")
    }

    fn as_any(&self) -> AnyRef<'_> {
        AnyRef(self)
    }

    fn as_any_mut(&mut self) -> AnyMut<'_> {
        AnyMut(self)
    }

    fn into_any(self: Box<Self>) -> AnyBox {
        AnyBox(self)
    }
}

/// Another castable type that declares `Dog`, to show that an entry converts
/// only values of the type it was made for.
struct Stray;

impl Dog for Stray {
    fn bark(&self) -> String {
        "a stray barks".to_string()
    }

    fn feed(&mut self) {}
}

impl TraitcastableTo<dyn Dog> for Stray {
    fn to_dyn_ref(input: &dyn TraitcastableAny) -> Option<&(dyn Dog + 'static)> {
        let casted: Option<&Self> = input.downcast_to_concrete_ref();
        casted.map(|selv| selv as &dyn Dog)
    }

    fn to_dyn_mut<'a>(
        input: &'a mut (dyn TraitcastableAny + 'static),
    ) -> Option<&'a mut (dyn Dog + 'static)> {
        let casted: Option<&mut Self> = input.downcast_to_concrete_mut();
        casted.map(|selv| selv as &mut dyn Dog)
    }

    fn to_dyn_box(
        input: Box<dyn TraitcastableAny>,
    ) -> Result<Box<dyn Dog>, Box<dyn TraitcastableAny>> {
        let casted: Result<Box<Self>, Box<dyn TraitcastableAny>> = input.downcast_to_concrete_box();
        casted.map(|selv| selv as Box<dyn Dog>)
    }
}

static STRAY_TARGETS: OnceLock<Vec<TraitcastTarget>> = OnceLock::new();

impl TraitcastableAny for Stray {
    fn traitcast_targets(&self) -> &[TraitcastTarget] {
        // The table is wrong on purpose: its entry was made for `Pet`.
        STRAY_TARGETS.get_or_init(|| vec![TraitcastTarget::from::<Pet, dyn Dog>("Dog")])
    }

    fn concrete_target(&self) -> TraitcastTarget {
        TraitcastTarget::concrete::<Self>("Stray")
    }

    fn as_any(&self) -> AnyRef<'_> {
        AnyRef(self)
    }

    fn as_any_mut(&mut self) -> AnyMut<'_> {
        AnyMut(self)
    }

    fn into_any(self: Box<Self>) -> AnyBox {
        AnyBox(self)
    }
}

#[test]
fn pet_casts_to_dog_by_reference() {
    let pet = Pet::named("Rex");
    let direct: &dyn Dog = &pet;
    let expected = direct.bark();
    let castable: &dyn TraitcastableAny = &pet;
    let dog: &dyn Dog = castable.downcast_ref().unwrap();
    assert_eq!(dog.bark(), expected);
    assert_eq!(dog.bark(), "Rex barks after 0 meals");
}

#[test]
fn pet_casts_to_every_declared_interface() {
    let mut pet: Box<dyn TraitcastableAny> = Box::new(Pet::named("Rex"));
    assert!(TraitcastableAnyInfra::<dyn Dog>::can_be(pet.as_ref()));
    assert!(TraitcastableAnyInfra::<dyn Cat>::can_be(pet.as_ref()));
    let cat: &dyn Cat = pet.downcast_ref().unwrap();
    assert_eq!(cat.meow(), "Rex meows after 0 meals");
    let dog: &mut dyn Dog = pet.downcast_mut().unwrap();
    dog.feed();
    dog.feed();
    assert_eq!(dog.bark(), "Rex barks after 2 meals");
    let cat: &mut dyn Cat = pet.downcast_mut().unwrap();
    assert_eq!(cat.meow(), "Rex meows after 2 meals");
    let owned: Box<dyn Dog> = pet.downcast().ok().unwrap();
    assert_eq!(owned.bark(), "Rex barks after 2 meals");
}

#[test]
fn pet_does_not_cast_to_mouse() {
    let mut pet: Box<dyn TraitcastableAny> = Box::new(Pet::named("Rex"));
    assert!(!TraitcastableAnyInfra::<dyn Mouse>::can_be(pet.as_ref()));
    let by_ref: Option<&dyn Mouse> = pet.downcast_ref();
    assert!(by_ref.is_none());
    let by_mut: Option<&mut dyn Mouse> = pet.downcast_mut();
    assert!(by_mut.is_none());
    let dog: &dyn Dog = pet.downcast_ref().unwrap();
    assert_eq!(dog.bark(), "Rex barks after 0 meals");
}

#[test]
fn owned_cast_keeps_the_allocation() {
    let pet_box: Box<dyn TraitcastableAny> = Box::new(Pet::named("Tom"));
    let before = address(pet_box.downcast_to_concrete_ref::<Pet>().unwrap());
    let cat: Box<dyn Cat> = pet_box.downcast().ok().unwrap();
    assert_eq!(address(&*cat), before);
    assert_eq!(cat.meow(), "Tom meows after 0 meals");
}

#[test]
fn refused_owned_cast_returns_the_box() {
    let pet_box: Box<dyn TraitcastableAny> = Box::new(Pet::named("Tom"));
    let before = address(pet_box.downcast_to_concrete_ref::<Pet>().unwrap());
    let refused: Result<Box<dyn Mouse>, Box<dyn TraitcastableAny>> = pet_box.downcast();
    let mut pet_box = refused.err().unwrap();
    assert_eq!(address(pet_box.downcast_to_concrete_ref::<Pet>().unwrap()), before);
    let dog: &dyn Dog = pet_box.downcast_ref().unwrap();
    assert_eq!(dog.bark(), "Tom barks after 0 meals");
    let dog: &mut dyn Dog = pet_box.downcast_mut().unwrap();
    dog.feed();
    let cat: Box<dyn Cat> = pet_box.downcast().ok().unwrap();
    assert_eq!(cat.meow(), "Tom meows after 1 meals");
}

#[test]
fn repeated_casts_agree() {
    let pet: Box<dyn TraitcastableAny> = Box::new(Pet::named("Rex"));
    let first: &dyn Dog = pet.downcast_ref().unwrap();
    let second: &dyn Dog = pet.downcast_ref().unwrap();
    let third: &dyn Dog = pet.downcast_ref_target(TypeId::of::<dyn Dog>()).unwrap();
    assert_eq!(address(first), address(second));
    assert_eq!(address(first), address(third));
    assert_eq!(first.bark(), second.bark());
    assert_eq!(address(first), address(pet.downcast_to_concrete_ref::<Pet>().unwrap()));
}

#[test]
fn exact_downcast_of_a_pet_always_succeeds() {
    let mut pet: Box<dyn TraitcastableAny> = Box::new(Pet::named("Rex"));
    assert!(TraitcastableAnyInfra::<Pet>::is(pet.as_ref()));
    assert_eq!(pet.downcast_to_concrete_ref::<Pet>().unwrap().name, "Rex");
    pet.downcast_to_concrete_mut::<Pet>().unwrap().meals = 3;
    let opened: Box<Pet> = pet.downcast_to_concrete_box::<Pet>().ok().unwrap();
    assert_eq!(opened.name, "Rex");
    assert_eq!(opened.meals, 3);
    let mut pet: Box<dyn TraitcastableAny> = opened;
    let before = address(pet.downcast_to_concrete_ref::<Pet>().unwrap());
    assert!(TraitcastableAnyInfra::<Pet>::can_be(pet.as_ref()));
    let by_ref: &Pet = pet.downcast_ref().unwrap();
    assert_eq!(address(by_ref), before);
    let by_mut: &mut Pet = pet.downcast_mut().unwrap();
    by_mut.meals = 4;
    let refused: Result<Box<Stray>, Box<dyn TraitcastableAny>> = pet.downcast();
    let pet = refused.err().unwrap();
    assert_eq!(address(pet.downcast_to_concrete_ref::<Pet>().unwrap()), before);
    let owned: Box<Pet> = pet.downcast().ok().unwrap();
    assert_eq!(address(&*owned), before);
    assert_eq!(owned.meals, 4);
}

#[test]
fn rendering_lists_the_declared_names() {
    let pet: Box<dyn TraitcastableAny> = Box::new(Pet::named("Rex"));
    assert_eq!(pet.fmt(), "TraitcastableAny to {Dog, Cat}");
}

#[test]
fn an_entry_made_for_another_type_converts_nothing() {
    let mut stray: Box<dyn TraitcastableAny> = Box::new(Stray);
    assert!(TraitcastableAnyInfra::<dyn Dog>::can_be(stray.as_ref()));
    let by_ref: Option<&dyn Dog> = stray.downcast_ref();
    assert!(by_ref.is_none());
    let by_mut: Option<&mut dyn Dog> = stray.downcast_mut();
    assert!(by_mut.is_none());
    let owned: Result<Box<dyn Dog>, Box<dyn TraitcastableAny>> = stray.downcast();
    let stray = owned.err().unwrap();
    assert!(stray.downcast_to_concrete_ref::<Stray>().is_some());
}

trait Left {
    fn side(&self) -> &'static str;
}

trait Right {
    fn side(&self) -> &'static str;
}

struct Twin;

impl Left for Twin {
    fn side(&self) -> &'static str {
        "left"
    }
}

impl Right for Twin {
    fn side(&self) -> &'static str {
        "right"
    }
}

impl TraitcastableTo<dyn Left> for Twin {
    fn to_dyn_ref(input: &dyn TraitcastableAny) -> Option<&(dyn Left + 'static)> {
        let casted: Option<&Self> = input.downcast_to_concrete_ref();
        casted.map(|selv| selv as &dyn Left)
    }

    fn to_dyn_mut<'a>(
        input: &'a mut (dyn TraitcastableAny + 'static),
    ) -> Option<&'a mut (dyn Left + 'static)> {
        let casted: Option<&mut Self> = input.downcast_to_concrete_mut();
        casted.map(|selv| selv as &mut dyn Left)
    }

    fn to_dyn_box(
        input: Box<dyn TraitcastableAny>,
    ) -> Result<Box<dyn Left>, Box<dyn TraitcastableAny>> {
        let casted: Result<Box<Self>, Box<dyn TraitcastableAny>> = input.downcast_to_concrete_box();
        casted.map(|selv| selv as Box<dyn Left>)
    }
}

impl TraitcastableTo<dyn Right> for Twin {
    fn to_dyn_ref(input: &dyn TraitcastableAny) -> Option<&(dyn Right + 'static)> {
        let casted: Option<&Self> = input.downcast_to_concrete_ref();
        casted.map(|selv| selv as &dyn Right)
    }

    fn to_dyn_mut<'a>(
        input: &'a mut (dyn TraitcastableAny + 'static),
    ) -> Option<&'a mut (dyn Right + 'static)> {
        let casted: Option<&mut Self> = input.downcast_to_concrete_mut();
        casted.map(|selv| selv as &mut dyn Right)
    }

    fn to_dyn_box(
        input: Box<dyn TraitcastableAny>,
    ) -> Result<Box<dyn Right>, Box<dyn TraitcastableAny>> {
        let casted: Result<Box<Self>, Box<dyn TraitcastableAny>> = input.downcast_to_concrete_box();
        casted.map(|selv| selv as Box<dyn Right>)
    }
}

static TWIN_TARGETS: OnceLock<Vec<TraitcastTarget>> = OnceLock::new();

impl TraitcastableAny for Twin {
    fn traitcast_targets(&self) -> &[TraitcastTarget] {
        TWIN_TARGETS.get_or_init(|| {
            vec![
                TraitcastTarget::from::<Twin, dyn Left>("Side"),
                TraitcastTarget::from::<Twin, dyn Right>("Side"),
            ]
        })
    }

    fn concrete_target(&self) -> TraitcastTarget {
        TraitcastTarget::concrete::<Self>("Twin")
    }

    fn as_any(&self) -> AnyRef<'_> {
        AnyRef(self)
    }

    fn as_any_mut(&mut self) -> AnyMut<'_> {
        AnyMut(self)
    }

    fn into_any(self: Box<Self>) -> AnyBox {
        AnyBox(self)
    }
}

#[test]
fn interfaces_of_one_name_keep_their_own_conversions() {
    let twin: Box<dyn TraitcastableAny> = Box::new(Twin);
    assert_eq!(twin.fmt(), "TraitcastableAny to {Side, Side}");
    let left: &dyn Left = twin.downcast_ref().unwrap();
    assert_eq!(left.side(), "left");
    let right: &dyn Right = twin.downcast_ref().unwrap();
    assert_eq!(right.side(), "right");
    let right: Box<dyn Right> = twin.downcast().ok().unwrap();
    assert_eq!(right.side(), "right");
}
