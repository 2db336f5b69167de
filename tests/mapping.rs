use sketchddd::{check_functorial_consistency, ContextMap, FunctorError, Graph, MorphismId, ObjectId, RelationshipPattern};

// =============================================================
// Tests for all 8 DDD Relationship Patterns
// =============================================================

#[test]
fn test_partnership_pattern() {
    let map = ContextMap::new(
        "SalesMarketing",
        "Sales",
        "Marketing",
        RelationshipPattern::Partnership,
    );

    assert_eq!(map.pattern, RelationshipPattern::Partnership);
    assert!(map.is_symmetric());
    assert!(!map.source_is_upstream());
    assert!(map.has_integration());
    assert_eq!(map.directionality(), "bidirectional");
}

#[test]
fn test_customer_supplier_pattern() {
    let map = ContextMap::new(
        "CommerceToShipping",
        "Commerce",
        "Shipping",
        RelationshipPattern::CustomerSupplier,
    );

    assert_eq!(map.pattern, RelationshipPattern::CustomerSupplier);
    assert!(!map.is_symmetric());
    assert!(map.source_is_upstream());
    assert!(map.has_integration());
    assert!(!map.requires_translation());
    assert_eq!(map.directionality(), "upstream → downstream");
}

#[test]
fn test_conformist_pattern() {
    let map = ContextMap::new(
        "ReportingToCore",
        "CoreDomain",
        "Reporting",
        RelationshipPattern::Conformist,
    );

    assert_eq!(map.pattern, RelationshipPattern::Conformist);
    assert!(!map.is_symmetric());
    assert!(map.source_is_upstream());
    assert!(map.has_integration());
    assert!(!map.requires_translation());
    assert_eq!(map.directionality(), "upstream → downstream");
}

#[test]
fn test_anti_corruption_layer_pattern() {
    let map = ContextMap::new(
        "LegacyIntegration",
        "LegacySystem",
        "NewSystem",
        RelationshipPattern::AntiCorruptionLayer,
    );

    assert_eq!(map.pattern, RelationshipPattern::AntiCorruptionLayer);
    assert!(!map.is_symmetric());
    assert!(map.source_is_upstream());
    assert!(map.has_integration());
    assert!(map.requires_translation());
    assert_eq!(map.directionality(), "upstream → downstream (translated)");
}

#[test]
fn test_separate_ways_pattern() {
    let map = ContextMap::new(
        "IndependentContexts",
        "ContextA",
        "ContextB",
        RelationshipPattern::SeparateWays,
    );

    assert_eq!(map.pattern, RelationshipPattern::SeparateWays);
    assert!(!map.is_symmetric());
    assert!(!map.source_is_upstream());
    assert!(!map.has_integration());
    assert!(!map.requires_translation());
    assert_eq!(map.directionality(), "none");
}

#[test]
fn test_published_language_pattern() {
    let map = ContextMap::new(
        "APIIntegration",
        "CoreAPI",
        "Consumer",
        RelationshipPattern::PublishedLanguage,
    );

    assert_eq!(map.pattern, RelationshipPattern::PublishedLanguage);
    assert!(!map.is_symmetric());
    assert!(!map.source_is_upstream());
    assert!(map.has_integration());
    assert!(!map.requires_translation());
    assert_eq!(
        map.directionality(),
        "upstream → downstream (via shared language)"
    );
}

#[test]
fn test_open_host_service_pattern() {
    let map = ContextMap::new(
        "ServiceExposure",
        "ServiceProvider",
        "ServiceConsumer",
        RelationshipPattern::OpenHostService,
    );

    assert_eq!(map.pattern, RelationshipPattern::OpenHostService);
    assert!(!map.is_symmetric());
    assert!(map.source_is_upstream());
    assert!(map.has_integration());
    assert!(!map.requires_translation());
    assert_eq!(map.directionality(), "upstream → downstream (via services)");
}

#[test]
fn test_shared_kernel_pattern() {
    let map = ContextMap::new(
        "SharedIdentity",
        "UserManagement",
        "Authentication",
        RelationshipPattern::SharedKernel,
    );

    assert_eq!(map.pattern, RelationshipPattern::SharedKernel);
    assert!(map.is_symmetric());
    assert!(!map.source_is_upstream());
    assert!(map.has_integration());
    assert!(!map.requires_translation());
    assert_eq!(map.directionality(), "bidirectional (shared)");
}

// =============================================================
// Tests for Object and Morphism Mappings
// =============================================================

#[test]
fn test_add_object_mappings() {
    let mut map = ContextMap::new(
        "CommerceToShipping",
        "Commerce",
        "Shipping",
        RelationshipPattern::CustomerSupplier,
    );

    map.map_object(ObjectId(0), ObjectId(10));
    map.map_object_with_description(ObjectId(1), ObjectId(11), "Order -> Shipment");

    assert_eq!(map.object_mappings.len(), 2);
    assert_eq!(map.get_object_mapping(ObjectId(0)), Some(ObjectId(10)));
    assert_eq!(map.get_object_mapping(ObjectId(1)), Some(ObjectId(11)));
    assert_eq!(map.get_object_mapping(ObjectId(99)), None);
}

#[test]
fn test_add_morphism_mappings() {
    let mut map = ContextMap::new(
        "OrderToFulfillment",
        "OrderContext",
        "FulfillmentContext",
        RelationshipPattern::CustomerSupplier,
    );

    map.map_morphism(MorphismId(0), MorphismId(10));
    map.map_morphism_with_description(
        MorphismId(1),
        MorphismId(11),
        "placedBy -> assignedTo",
    );

    assert_eq!(map.morphism_mappings.len(), 2);
    assert_eq!(
        map.get_morphism_mapping(MorphismId(0)),
        Some(MorphismId(10))
    );
    assert_eq!(
        map.get_morphism_mapping(MorphismId(1)),
        Some(MorphismId(11))
    );
    assert_eq!(map.get_morphism_mapping(MorphismId(99)), None);
}

// =============================================================
// Tests for Functorial Consistency Checks
// =============================================================

fn create_simple_source_graph() -> Graph {
    let mut graph = Graph::new();
    let a = graph.add_object("A");
    let b = graph.add_object("B");
    graph.add_morphism("f", a, b);
    graph.add_identity_morphism(a);
    graph
}

fn create_simple_target_graph() -> Graph {
    let mut graph = Graph::new();
    let fa = graph.add_object("FA");
    let fb = graph.add_object("FB");
    graph.add_morphism("Ff", fa, fb);
    graph.add_identity_morphism(fa);
    graph
}

#[test]
fn test_valid_functorial_mapping() {
    let source = create_simple_source_graph();
    let target = create_simple_target_graph();

    let mut map = ContextMap::new(
        "ValidMapping",
        "Source",
        "Target",
        RelationshipPattern::Conformist,
    );

    // Map objects: A -> FA, B -> FB
    map.map_object(ObjectId(0), ObjectId(0)); // A -> FA
    map.map_object(ObjectId(1), ObjectId(1)); // B -> FB

    // Map morphism: f -> Ff
    map.map_morphism(MorphismId(0), MorphismId(0)); // f -> Ff

    // Map identity: id_A -> id_FA
    map.map_morphism(MorphismId(1), MorphismId(1)); // id_A -> id_FA

    let result = check_functorial_consistency(&map, &source, &target);
    assert!(result.is_valid, "Expected valid result: {:?}", result.errors);
    assert!(result.errors.is_empty());
}

#[test]
fn test_unmapped_source_object() {
    let source = create_simple_source_graph();
    let target = create_simple_target_graph();

    let mut map = ContextMap::new(
        "PartialMapping",
        "Source",
        "Target",
        RelationshipPattern::Conformist,
    );

    // Only map B -> FB, not A
    map.map_object(ObjectId(1), ObjectId(1)); // B -> FB

    // Try to map morphism f: A -> B, but A is not mapped
    map.map_morphism(MorphismId(0), MorphismId(0));

    let result = check_functorial_consistency(&map, &source, &target);
    assert!(!result.is_valid);
    assert!(result.errors.iter().any(|e| matches!(
        e,
        FunctorError::UnmappedSource {
            morphism: MorphismId(0),
            source_object: ObjectId(0)
        }
    )));
}

#[test]
fn test_unmapped_target_object() {
    let source = create_simple_source_graph();
    let target = create_simple_target_graph();

    let mut map = ContextMap::new(
        "PartialMapping",
        "Source",
        "Target",
        RelationshipPattern::Conformist,
    );

    // Only map A -> FA, not B
    map.map_object(ObjectId(0), ObjectId(0)); // A -> FA

    // Try to map morphism f: A -> B, but B is not mapped
    map.map_morphism(MorphismId(0), MorphismId(0));

    let result = check_functorial_consistency(&map, &source, &target);
    assert!(!result.is_valid);
    assert!(result.errors.iter().any(|e| matches!(
        e,
        FunctorError::UnmappedTarget {
            morphism: MorphismId(0),
            target_object: ObjectId(1)
        }
    )));
}

#[test]
fn test_inconsistent_source() {
    let source = create_simple_source_graph();

    // Create a target graph where morphism has different source
    let mut target = Graph::new();
    let _fa = target.add_object("FA");
    let fb = target.add_object("FB");
    let fc = target.add_object("FC");
    target.add_morphism("Ff", fc, fb); // Ff: FC -> FB (wrong source)

    let mut map = ContextMap::new(
        "InconsistentMapping",
        "Source",
        "Target",
        RelationshipPattern::Conformist,
    );

    // Map objects correctly
    map.map_object(ObjectId(0), ObjectId(0)); // A -> FA
    map.map_object(ObjectId(1), ObjectId(1)); // B -> FB

    // Map morphism f: A->B to Ff: FC->FB (source mismatch)
    map.map_morphism(MorphismId(0), MorphismId(0));

    let result = check_functorial_consistency(&map, &source, &target);
    assert!(!result.is_valid);
    assert!(result
        .errors
        .iter()
        .any(|e| matches!(e, FunctorError::InconsistentSource { .. })));
}

#[test]
fn test_identity_not_preserved() {
    let source = create_simple_source_graph();

    // Create target with non-identity morphism
    let mut target = Graph::new();
    let fa = target.add_object("FA");
    let fb = target.add_object("FB");
    target.add_morphism("not_identity", fa, fb); // Regular morphism, not identity

    let mut map = ContextMap::new(
        "IdentityViolation",
        "Source",
        "Target",
        RelationshipPattern::Conformist,
    );

    map.map_object(ObjectId(0), ObjectId(0)); // A -> FA

    // Map identity morphism to non-identity
    map.map_morphism(MorphismId(1), MorphismId(0)); // id_A -> not_identity

    let result = check_functorial_consistency(&map, &source, &target);
    assert!(!result.is_valid);
    assert!(result
        .errors
        .iter()
        .any(|e| matches!(e, FunctorError::IdentityNotPreserved { .. })));
}

#[test]
fn test_empty_mapping_is_valid() {
    let source = create_simple_source_graph();
    let target = create_simple_target_graph();

    let map = ContextMap::new(
        "EmptyMapping",
        "Source",
        "Target",
        RelationshipPattern::SeparateWays,
    );

    // No mappings - vacuously valid
    let result = check_functorial_consistency(&map, &source, &target);
    assert!(result.is_valid);
}

// =============================================================
// Tests for Context Map Creation
// =============================================================

#[test]
fn test_create_context_map() {
    let map = ContextMap::new(
        "CommerceToShipping",
        "Commerce",
        "Shipping",
        RelationshipPattern::CustomerSupplier,
    );

    assert_eq!(map.name, "CommerceToShipping");
    assert_eq!(map.source_context, "Commerce");
    assert_eq!(map.target_context, "Shipping");
    assert!(map.source_is_upstream());
    assert!(map.object_mappings.is_empty());
    assert!(map.morphism_mappings.is_empty());
}

#[test]
fn test_mapping_description() {
    let mut map = ContextMap::new(
        "TestMap",
        "Source",
        "Target",
        RelationshipPattern::Conformist,
    );

    map.map_object_with_description(
        ObjectId(0),
        ObjectId(10),
        "Maps Order to ShippingOrder",
    );

    assert_eq!(
        map.object_mappings[0].description,
        Some("Maps Order to ShippingOrder".to_string())
    );
}

#[test]
fn later_object_mappings_are_shadowed() {
    let mut map = ContextMap::new("M", "A", "B", RelationshipPattern::Conformist);
    map.map_object(ObjectId(0), ObjectId(5));
    map.map_object(ObjectId(0), ObjectId(6));
    map.map_morphism(MorphismId(1), MorphismId(2));
    map.map_morphism(MorphismId(1), MorphismId(3));
    assert_eq!(map.object_mappings.len(), 2);
    assert_eq!(map.get_object_mapping(ObjectId(0)), Some(ObjectId(5)));
    assert_eq!(map.get_morphism_mapping(MorphismId(1)), Some(MorphismId(2)));
}

#[test]
fn missing_morphisms_are_skipped_by_the_functor_check() {
    let source = create_simple_source_graph();
    let target = Graph::new();
    let mut map = ContextMap::new("M", "S", "T", RelationshipPattern::Conformist);
    map.map_morphism(MorphismId(0), MorphismId(0));
    map.map_morphism(MorphismId(42), MorphismId(0));
    let result = check_functorial_consistency(&map, &source, &target);
    assert!(result.is_valid);
    assert!(result.errors.is_empty());
}

#[test]
fn inconsistent_target_is_reported_exactly() {
    let source = create_simple_source_graph();
    let mut target = Graph::new();
    let fa = target.add_object("FA");
    let _fb = target.add_object("FB");
    let fc = target.add_object("FC");
    target.add_morphism("Ff", fa, fc);
    let mut map = ContextMap::new("M", "S", "T", RelationshipPattern::Conformist);
    map.map_object(ObjectId(0), ObjectId(0));
    map.map_object(ObjectId(1), ObjectId(1));
    map.map_morphism(MorphismId(0), MorphismId(0));
    let result = check_functorial_consistency(&map, &source, &target);
    assert!(!result.is_valid);
    assert_eq!(
        result.errors,
        vec![FunctorError::InconsistentTarget {
            source_morphism: MorphismId(0),
            expected_target_target: ObjectId(1),
            actual_target_target: ObjectId(2),
        }]
    );
}

#[test]
fn separate_ways_between_empty_contexts() {
    let map = ContextMap::new("M", "A", "B", RelationshipPattern::SeparateWays);
    assert!(!map.has_integration());
    assert!(!map.requires_translation());
    assert_eq!(map.directionality(), "none");
}

#[test]
fn empty_map_is_valid_between_any_graphs() {
    let map = ContextMap::new("M", "A", "B", RelationshipPattern::Partnership);
    let result = check_functorial_consistency(&map, &Graph::new(), &create_simple_target_graph());
    assert!(result.is_valid);
    assert!(result.errors.is_empty());
}

#[test]
fn functor_error_messages() {
    let e = FunctorError::InconsistentSource {
        source_morphism: MorphismId(0),
        expected_target_source: ObjectId(0),
        actual_target_source: ObjectId(2),
    };
    assert_eq!(
        e.message(),
        "Mapped morphism for MorphismId(0) has source ObjectId(2) but expected ObjectId(0)"
    );
    let u = FunctorError::UnmappedSource { morphism: MorphismId(12), source_object: ObjectId(3) };
    assert_eq!(u.message(), "Morphism MorphismId(12) has source object ObjectId(3) which is not mapped");
    let i = FunctorError::IdentityNotPreserved { source_identity: MorphismId(1), target_morphism: MorphismId(0) };
    assert_eq!(i.message(), "Identity morphism MorphismId(1) is mapped to non-identity MorphismId(0)");
}
