use sketchddd::{LimitCone, MorphismId, ObjectId};

#[test]
fn test_aggregate_creation() {
    let apex = ObjectId(0);
    let root = ObjectId(0);
    let agg = LimitCone::aggregate("OrderAggregate", apex, root);

    assert!(agg.is_aggregate);
    assert_eq!(agg.root, Some(root));
    assert_eq!(agg.name, "OrderAggregate");
}

#[test]
fn test_value_object_creation() {
    let apex = ObjectId(0);
    let vo = LimitCone::value_object("Money", apex);

    assert!(!vo.is_aggregate);
    assert_eq!(vo.root, None);
    assert_eq!(vo.name, "Money");
}

#[test]
fn test_add_projections() {
    let apex = ObjectId(0);
    let mut vo = LimitCone::value_object("Money", apex);

    vo.add_projection(MorphismId(0), ObjectId(1));
    vo.add_projection(MorphismId(1), ObjectId(2));

    assert_eq!(vo.projections.len(), 2);
    assert_eq!(vo.component_objects().len(), 2);
}

#[test]
fn component_objects_in_projection_order() {
    let mut vo = LimitCone::value_object("Money", ObjectId(0));
    vo.add_projection(MorphismId(4), ObjectId(7));
    vo.add_projection(MorphismId(5), ObjectId(3));
    assert_eq!(vo.component_objects(), vec![ObjectId(7), ObjectId(3)]);
}
