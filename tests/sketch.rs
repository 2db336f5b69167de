use sketchddd::{ColimitCocone, LimitCone, Path, PathEquation, Sketch};

#[test]
fn test_create_sketch() {
    let sketch = Sketch::new("Commerce");
    assert_eq!(sketch.name, "Commerce");
    assert_eq!(sketch.graph.objects().len(), 0);
}

#[test]
fn test_add_objects_and_morphisms() {
    let mut sketch = Sketch::new("Commerce");

    let order = sketch.add_object("Order");
    let customer = sketch.add_object("Customer");
    let _placed_by = sketch.add_morphism("placedBy", order, customer);

    assert_eq!(sketch.graph.objects().len(), 2);
    assert_eq!(sketch.graph.morphisms().len(), 1);
}

#[test]
fn sketch_containers_append_without_dedup() {
    let mut sketch = Sketch::new("S");
    let a = sketch.add_object("A");
    sketch.add_equation(PathEquation::new("e", Path::identity(a), Path::identity(a)));
    sketch.add_equation(PathEquation::new("e", Path::identity(a), Path::identity(a)));
    sketch.add_limit(LimitCone::value_object("V", a));
    sketch.add_colimit(ColimitCocone::new("C", a));
    assert_eq!(sketch.equations.len(), 2);
    assert_eq!(sketch.limits.len(), 1);
    assert_eq!(sketch.colimits.len(), 1);
}
