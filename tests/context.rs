use sketchddd::{BoundedContext, Path, PathEquation};

#[test]
fn test_create_context() {
    let ctx = BoundedContext::new("Commerce");
    assert_eq!(ctx.name(), "Commerce");
}

// ========== Entity Tests ==========

#[test]
fn test_add_entity() {
    let mut ctx = BoundedContext::new("Commerce");
    let customer = ctx.add_entity("Customer");

    assert!(ctx.is_entity(customer));
    assert!(!ctx.is_value_object(customer));
}

#[test]
fn test_entity_has_identity_morphism() {
    let mut ctx = BoundedContext::new("Commerce");
    let customer = ctx.add_entity("Customer");

    // Entity should have an identity morphism
    let identity = ctx.get_entity_identity(customer);
    assert!(identity.is_some());

    // The identity morphism should exist in the graph
    let morph = ctx.graph().get_morphism(identity.unwrap());
    assert!(morph.is_some());
    let morph = morph.unwrap();
    assert!(morph.is_identity);
    assert_eq!(morph.source, customer);
    assert_eq!(morph.target, customer);
    assert_eq!(morph.name, "id_Customer");
}

#[test]
fn test_multiple_entities_have_separate_identities() {
    let mut ctx = BoundedContext::new("Commerce");
    let customer = ctx.add_entity("Customer");
    let order = ctx.add_entity("Order");

    let customer_id = ctx.get_entity_identity(customer).unwrap();
    let order_id = ctx.get_entity_identity(order).unwrap();

    assert_ne!(customer_id, order_id);
}

// ========== Value Object Tests ==========

#[test]
fn test_add_value_object() {
    let mut ctx = BoundedContext::new("Commerce");
    let money = ctx.add_value_object("Money");

    assert!(ctx.is_value_object(money));
    assert!(!ctx.is_entity(money));
}

#[test]
fn test_value_object_has_limit_cone() {
    let mut ctx = BoundedContext::new("Commerce");
    let money = ctx.add_value_object("Money");

    let limit = ctx.get_value_object_limit(money);
    assert!(limit.is_some());
    let limit = limit.unwrap();
    assert!(!limit.is_aggregate);
    assert_eq!(limit.apex, money);
}

#[test]
fn test_value_object_with_components() {
    let mut ctx = BoundedContext::new("Commerce");

    // Add primitive types
    let amount = ctx.sketch_mut().add_object("Decimal");
    let currency = ctx.sketch_mut().add_object("Currency");

    // Create Money as a value object with components
    let money = ctx.add_value_object_with_components("Money", &[amount, currency]);

    assert!(ctx.is_value_object(money));

    let limit = ctx.get_value_object_limit(money).unwrap();
    assert_eq!(limit.projections.len(), 2);
    assert_eq!(limit.component_objects().len(), 2);
}

// ========== Aggregate Tests ==========

#[test]
fn test_define_aggregate() {
    let mut ctx = BoundedContext::new("Commerce");
    let order = ctx.add_entity("Order");
    ctx.define_aggregate("OrderAggregate", order);

    assert!(ctx.is_aggregate_root(order));
    assert_eq!(ctx.aggregate_roots().len(), 1);
}

#[test]
fn test_aggregate_with_members() {
    let mut ctx = BoundedContext::new("Commerce");
    let order = ctx.add_entity("Order");
    let line_item = ctx.add_entity("LineItem");
    let shipping = ctx.add_value_object("ShippingInfo");

    ctx.define_aggregate_with_members("OrderAggregate", order, &[line_item, shipping]);

    let aggregate = ctx.get_aggregate(order);
    assert!(aggregate.is_some());
    let aggregate = aggregate.unwrap();
    assert!(aggregate.is_aggregate);
    assert_eq!(aggregate.root, Some(order));
    assert_eq!(aggregate.projections.len(), 2);
}

// ========== Enumeration Tests ==========

#[test]
fn test_add_enum() {
    let mut ctx = BoundedContext::new("Commerce");
    let status = ctx.add_enum(
        "OrderStatus",
        vec!["Pending".into(), "Confirmed".into(), "Shipped".into()],
    );

    assert_eq!(ctx.sketch().colimits.len(), 1);

    let colimit = ctx.get_enum_colimit(status);
    assert!(colimit.is_some());
    let colimit = colimit.unwrap();
    let variants: Vec<&str> = colimit.variant_names();
    assert_eq!(variants, vec!["Pending", "Confirmed", "Shipped"]);
}

#[test]
fn test_add_sum_type() {
    let mut ctx = BoundedContext::new("Commerce");

    // Create variant types
    let pending = ctx.sketch_mut().add_object("Pending");
    let confirmed = ctx.sketch_mut().add_object("Confirmed");
    let shipped = ctx.sketch_mut().add_object("Shipped");

    let status = ctx.add_sum_type(
        "OrderStatus",
        vec![
            ("Pending".into(), pending),
            ("Confirmed".into(), confirmed),
            ("Shipped".into(), shipped),
        ],
    );

    let colimit = ctx.get_enum_colimit(status).unwrap();
    assert_eq!(colimit.injections.len(), 3);
}

// ========== Invariant Tests ==========

#[test]
fn test_add_equalizer_invariant() {
    let mut ctx = BoundedContext::new("Commerce");

    // Create objects
    let order = ctx.add_entity("Order");
    let computed_total = ctx.sketch_mut().add_object("ComputedTotal");
    let stored_total = ctx.sketch_mut().add_object("StoredTotal");

    // Create morphisms representing two ways to get a total
    let f = ctx.sketch_mut().graph.add_morphism("computeTotal", order, computed_total);
    let g = ctx.sketch_mut().graph.add_morphism("storedTotal", order, stored_total);

    // Add invariant: computed total must equal stored total
    let _eq = ctx.add_equalizer_invariant(
        "TotalConsistency",
        order,
        f,
        g,
        Some("The computed total must match the stored total".into()),
    );

    assert_eq!(ctx.invariants().len(), 1);
    let inv = &ctx.invariants()[0];
    assert_eq!(inv.name, "TotalConsistency");
    assert_eq!(inv.morphism_f, f);
    assert_eq!(inv.morphism_g, g);
}

#[test]
fn test_add_path_equation() {
    let mut ctx = BoundedContext::new("Commerce");
    let order = ctx.add_entity("Order");

    let path1 = Path::identity(order);
    let path2 = Path::identity(order);
    let equation = PathEquation::new("IdentityRule", path1, path2);

        ctx.add_invariant("Test", equation);

    assert_eq!(ctx.sketch().equations.len(), 1);
}

// ========== Integration Tests ==========

#[test]
fn test_commerce_domain_model() {
    let mut ctx = BoundedContext::new("Commerce");

    // Entities
    let customer = ctx.add_entity("Customer");
    let order = ctx.add_entity("Order");
    let line_item = ctx.add_entity("LineItem");
    let product = ctx.add_entity("Product");

    // Value objects
    let money = ctx.add_value_object("Money");
    let address = ctx.add_value_object("Address");

    // Enumeration
    let _status = ctx.add_enum(
        "OrderStatus",
        vec![
            "Pending".into(),
            "Confirmed".into(),
            "Shipped".into(),
            "Delivered".into(),
        ],
    );

    // Aggregate
    ctx.define_aggregate_with_members("OrderAggregate", order, &[line_item]);

    // Morphisms (relationships)
    ctx.sketch_mut().graph.add_morphism("placedBy", order, customer);
    ctx.sketch_mut().graph.add_morphism("shippingAddress", order, address);
    ctx.sketch_mut().graph.add_morphism("total", order, money);
    ctx.sketch_mut().graph.add_morphism("product", line_item, product);
    ctx.sketch_mut().graph.add_morphism("price", line_item, money);

    // Verify structure
    assert_eq!(ctx.entities().len(), 4);
    assert_eq!(ctx.value_objects().len(), 2);
    assert_eq!(ctx.aggregate_roots().len(), 1);
    assert_eq!(ctx.sketch().colimits.len(), 1);

    // All entities should have identity morphisms
    for entity in ctx.entities() {
        assert!(ctx.get_entity_identity(*entity).is_some());
    }

    // Value objects should have limit cones
    for vo in ctx.value_objects() {
        assert!(ctx.get_value_object_limit(*vo).is_some());
    }
}

#[test]
fn value_object_components_get_projection_morphisms() {
    let mut ctx = BoundedContext::new("Commerce");
    let amount = ctx.sketch_mut().add_object("Decimal");
    let currency = ctx.sketch_mut().add_object("Currency");
    let money = ctx.add_value_object_with_components("Money", &[amount, currency]);
    let limit = ctx.get_value_object_limit(money).unwrap();
    let first = ctx.graph().get_morphism(limit.projections[0].morphism).unwrap();
    let second = ctx.graph().get_morphism(limit.projections[1].morphism).unwrap();
    assert_eq!(first.name, "proj_0");
    assert_eq!(second.name, "proj_1");
    assert_eq!((first.source, first.target), (money, amount));
    assert_eq!((second.source, second.target), (money, currency));
}

#[test]
fn repeated_aggregate_definitions_repeat_the_root() {
    let mut ctx = BoundedContext::new("Commerce");
    let order = ctx.add_entity("Order");
    ctx.define_aggregate("A", order);
    ctx.define_aggregate("B", order);
    assert_eq!(ctx.aggregate_roots().len(), 2);
    assert_eq!(ctx.get_aggregate(order).unwrap().name, "A");
}

#[test]
fn aggregate_member_projections_are_named_after_members() {
    let mut ctx = BoundedContext::new("Commerce");
    let order = ctx.add_entity("Order");
    let item = ctx.add_entity("LineItem");
    let agg = ctx.define_aggregate_with_members("OrderAggregate", order, &[item]);
    let m = agg.projections[0].morphism;
    let morphism = ctx.graph().get_morphism(m).unwrap();
    assert_eq!(morphism.name, "OrderAggregate_LineItem");
    assert_eq!((morphism.source, morphism.target), (order, item));
}

#[test]
fn equalizer_invariant_creates_object_and_inclusion() {
    let mut ctx = BoundedContext::new("Commerce");
    let order = ctx.add_entity("Order");
    let x = ctx.sketch_mut().add_object("X");
    let y = ctx.sketch_mut().add_object("Y");
    let f = ctx.sketch_mut().add_morphism("f", order, x);
    let g = ctx.sketch_mut().add_morphism("g", order, y);
    let eq = ctx.add_equalizer_invariant("Total", order, f, g, None);
    assert_eq!(ctx.graph().get_object(eq).unwrap().name, "Eq_Total");
    let inv = &ctx.invariants()[0];
    let incl = ctx.graph().get_morphism(inv.inclusion).unwrap();
    assert_eq!(incl.name, "incl_Total");
    assert_eq!((incl.source, incl.target), (eq, order));
    assert_eq!(inv.description, None);
}

#[test]
fn path_equation_takes_the_given_name() {
    let mut ctx = BoundedContext::new("Commerce");
    let order = ctx.add_entity("Order");
    let eq = PathEquation::new("old", Path::identity(order), Path::identity(order));
    ctx.add_path_equation("new", eq);
    assert_eq!(ctx.sketch().equations[0].name, "new");
}
