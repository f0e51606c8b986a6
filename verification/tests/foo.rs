use std::any::TypeId;
use trait_cast_rs::foo::trait_cast;
use trait_cast_rs::foo::trait_cast_to;
use trait_cast_rs::foo::Baup;
use trait_cast_rs::foo::Foo;
use trait_cast_rs::TraitcastableAny;
use trait_cast_rs::TraitcastableAnyInfra;
use trait_cast_rs::TraitcastableAnyInfraExt;
use trait_cast_rs::TraitcastableTo;

#[test]
fn foo_casts_to_baup() {
    let foo = Box::new(Foo::new(8));
    let real_baup: &dyn Baup = foo.as_ref();
    assert_eq!(real_baup.baup(), 8);
    let targets = foo.traitcastable_from();
    let any_foo: Box<dyn TraitcastableAny> = foo;
    let baup = trait_cast::<dyn Baup>(any_foo.as_ref(), &targets).unwrap();
    assert_eq!(baup.baup(), 8);
    let baup = trait_cast::<Foo>(any_foo.as_ref(), &targets);
    assert!(baup.is_none());
    let baup = trait_cast::<dyn Baup>(any_foo.as_ref(), &[]);
    assert!(baup.is_none());
}

#[test]
fn trait_cast_goes_by_the_identifier_it_is_given() {
    let foo = Foo::new(2);
    let targets = foo.traitcastable_from();
    let hit = trait_cast_to::<dyn Baup>(&foo, &targets, TypeId::of::<dyn Baup>());
    assert_eq!(hit.unwrap().baup(), 2);
    let miss = trait_cast_to::<dyn Baup>(&foo, &targets, TypeId::of::<Foo>());
    assert!(miss.is_none());
}

#[test]
fn to_dyn_baup_converts_a_foo_only() {
    let foo = Foo::new(2);
    assert_eq!(Foo::to_dyn_baup(&foo).unwrap().baup(), 2);
    let other = foo.traitcastable_from();
    assert_eq!(other.len(), 1);
    assert_eq!(other[0].target_type_name(), "Baup");
    assert_eq!(other[0].target_type_id(), TypeId::of::<dyn Baup>());
    let unopened = trait_cast_rs::Unopened::new(trait_cast_rs::AnyBox(Box::new(Foo::new(3))));
    assert!(Foo::to_dyn_baup(&unopened).is_none());
}

#[test]
fn foo_offers_shared_and_owned_casts() {
    let mut foo: Box<dyn TraitcastableAny> = Box::new(Foo::new(5));
    assert_eq!(foo.fmt(), "TraitcastableAny to {Baup}");
    assert!(TraitcastableAnyInfra::<dyn Baup>::can_be(foo.as_ref()));
    let shared: &dyn Baup = foo.downcast_ref().unwrap();
    assert_eq!(shared.baup(), 5);
    let exclusive: Option<&mut dyn Baup> = foo.downcast_mut();
    assert!(exclusive.is_none());
    assert!(<Foo as TraitcastableTo<dyn Baup>>::to_dyn_mut(foo.as_mut()).is_none());
    let owned: Box<dyn Baup> = foo.downcast().ok().unwrap();
    assert_eq!(owned.baup(), 5);
}

#[test]
fn foo_casts_to_itself() {
    let mut foo: Box<dyn TraitcastableAny> = Box::new(Foo::new(5));
    assert!(TraitcastableAnyInfra::<Foo>::can_be(foo.as_ref()));
    let shared: &Foo = foo.downcast_ref().unwrap();
    assert_eq!(shared.baup(), 5);
    let exclusive: Option<&mut Foo> = foo.downcast_mut();
    assert!(exclusive.is_some());
    let owned: Box<Foo> = foo.downcast().ok().unwrap();
    assert_eq!(owned.baup(), 5);
    assert_eq!(owned.traitcastable_from().len(), 1);
}
