use chronos::entity::component_storage::{Component, ComponentStorage};

#[test]
fn test_component_storage_resize() {
    let mut storage: ComponentStorage<String> = ComponentStorage::new(2);
    storage.add_component(0, "First".to_string());
    storage.add_component(1, "Second".to_string());

    assert_eq!(storage.capacity(), 2);

    storage.add_component(3, "Third".to_string());
    assert_eq!(storage.capacity(), 4);
}

#[test]
fn test_component_storage_has_component() {
    let mut storage: ComponentStorage<String> = ComponentStorage::new(2);
    storage.add_component(0, "First".to_string());

    assert!(storage.has_component::<String>(0));
    assert!(!storage.has_component::<String>(1));
}

#[derive(Debug, PartialEq)]
enum Cell {
    Name(Name),
    Health(Health),
}

#[derive(Debug, PartialEq)]
struct Name(String);

#[derive(Debug, PartialEq)]
struct Health(u32);

impl Component<Cell> for Name {
    const COLUMN: u64 = 1;

    fn cell(self) -> Cell {
        Cell::Name(self)
    }

    fn held(cell: Cell) -> Option<Name> {
        match cell {
            Cell::Name(name) => Some(name),
            _ => None,
        }
    }

    fn lemma_cell_holds(_value: Name) {}

    fn into_cell(self) -> Cell {
        Cell::Name(self)
    }

    fn from_cell(cell: &Cell) -> Option<&Name> {
        match cell {
            Cell::Name(name) => Some(name),
            _ => None,
        }
    }
}

impl Component<Cell> for Health {
    const COLUMN: u64 = 2;

    fn cell(self) -> Cell {
        Cell::Health(self)
    }

    fn held(cell: Cell) -> Option<Health> {
        match cell {
            Cell::Health(health) => Some(health),
            _ => None,
        }
    }

    fn lemma_cell_holds(_value: Health) {}

    fn into_cell(self) -> Cell {
        Cell::Health(self)
    }

    fn from_cell(cell: &Cell) -> Option<&Health> {
        match cell {
            Cell::Health(health) => Some(health),
            _ => None,
        }
    }
}

#[test]
fn test_component_storage_two_columns() {
    let mut storage: ComponentStorage<Cell> = ComponentStorage::new(4);
    storage.add_component(1, Name("one".to_string()));
    storage.add_component(1, Health(10));
    storage.add_component(2, Health(20));

    assert_eq!(storage.get_component::<Name>(1), Some(&Name("one".to_string())));
    assert_eq!(storage.get_component::<Health>(1), Some(&Health(10)));
    assert_eq!(storage.get_component::<Name>(2), None);
    assert_eq!(storage.get_component::<Health>(2), Some(&Health(20)));
}

#[test]
fn new_storage_has_no_components() {
    let storage: ComponentStorage<Cell> = ComponentStorage::new(3);
    assert_eq!(storage.capacity(), 3);
    assert!(!storage.has_component::<Name>(0));
    assert!(storage.get_component::<Health>(0).is_none());
}

#[test]
fn default_storage_has_capacity_1000() {
    let storage: ComponentStorage<Cell> = ComponentStorage::default();
    assert_eq!(storage.capacity(), 1000);
    assert!(!storage.has_component::<Name>(0));
}

#[test]
fn component_is_read_back_as_it_was_added() {
    let mut storage: ComponentStorage<Cell> = ComponentStorage::new(4);
    storage.add_component(2, Name("two".to_string()));
    assert_eq!(storage.get_component::<Name>(2), Some(&Name("two".to_string())));
    assert!(storage.has_component::<Name>(2));
    assert!(!storage.has_component::<Health>(2));
    assert!(!storage.has_component::<Name>(1));
}

#[test]
fn capacity_stays_while_ids_fit() {
    let mut storage: ComponentStorage<u8> = ComponentStorage::new(4);
    storage.add_component(3, 1u8);
    assert_eq!(storage.capacity(), 4);
}

#[test]
fn capacity_doubles_where_that_reaches_the_id() {
    let mut storage: ComponentStorage<u8> = ComponentStorage::new(4);
    storage.add_component(4, 1u8);
    assert_eq!(storage.capacity(), 8);
    storage.add_component(15, 2u8);
    assert_eq!(storage.capacity(), 16);
}

#[test]
fn capacity_reaches_an_id_far_beyond_its_double() {
    let mut storage: ComponentStorage<u8> = ComponentStorage::new(2);
    storage.add_component(0, 1u8);
    storage.add_component(10, 2u8);
    assert_eq!(storage.capacity(), 11);
    assert_eq!(storage.get_component::<u8>(0), Some(&1));
    assert_eq!(storage.get_component::<u8>(10), Some(&2));
}

#[test]
fn capacity_grows_from_zero() {
    let mut storage: ComponentStorage<u8> = ComponentStorage::new(0);
    storage.add_component(0, 1u8);
    assert_eq!(storage.capacity(), 1);
    storage.add_component(1, 2u8);
    assert_eq!(storage.capacity(), 2);
    assert_eq!(storage.get_component::<u8>(0), Some(&1));
    assert_eq!(storage.get_component::<u8>(1), Some(&2));
}

#[test]
fn growth_reaches_every_column_and_disturbs_none() {
    let mut storage: ComponentStorage<Cell> = ComponentStorage::new(2);
    storage.add_component(0, Name("zero".to_string()));
    storage.add_component(1, Health(1));
    // Only the column of `Health` needs the larger capacity here ...
    storage.add_component(5, Health(5));
    assert_eq!(storage.capacity(), 6);
    // ... but the column of `Name` addresses the new ids as well.
    storage.add_component(4, Name("four".to_string()));
    assert_eq!(storage.capacity(), 6);

    assert_eq!(storage.get_component::<Name>(0), Some(&Name("zero".to_string())));
    assert_eq!(storage.get_component::<Health>(1), Some(&Health(1)));
    assert_eq!(storage.get_component::<Health>(5), Some(&Health(5)));
    assert_eq!(storage.get_component::<Name>(4), Some(&Name("four".to_string())));
    assert!(storage.get_component::<Name>(5).is_none());
}

#[test]
fn column_registered_late_has_the_grown_capacity() {
    let mut storage: ComponentStorage<Cell> = ComponentStorage::new(1);
    storage.add_component(6, Health(6));
    assert_eq!(storage.capacity(), 7);
    storage.add_component(6, Name("six".to_string()));
    assert_eq!(storage.capacity(), 7);
    assert_eq!(storage.get_component::<Name>(6), Some(&Name("six".to_string())));
}

#[test]
fn second_component_of_a_type_replaces_the_first() {
    let mut storage: ComponentStorage<Cell> = ComponentStorage::new(4);
    storage.add_component(1, Health(1));
    storage.add_component(2, Health(2));
    storage.add_component(1, Health(100));
    assert_eq!(storage.get_component::<Health>(1), Some(&Health(100)));
    assert_eq!(storage.get_component::<Health>(2), Some(&Health(2)));
    storage.remove_all_components(1);
    assert!(storage.get_component::<Health>(1).is_none());
    assert_eq!(storage.get_component::<Health>(2), Some(&Health(2)));
}

#[test]
fn remove_all_components_purges_every_column() {
    let mut storage: ComponentStorage<Cell> = ComponentStorage::new(4);
    storage.add_component(1, Name("one".to_string()));
    storage.add_component(1, Health(1));
    storage.add_component(2, Name("two".to_string()));
    storage.add_component(3, Health(3));

    storage.remove_all_components(1);

    assert!(!storage.has_component::<Name>(1));
    assert!(!storage.has_component::<Health>(1));
    assert_eq!(storage.get_component::<Name>(2), Some(&Name("two".to_string())));
    assert_eq!(storage.get_component::<Health>(3), Some(&Health(3)));
    assert_eq!(storage.capacity(), 4);

    // An entity without components, or beyond the capacity, is purged in vain.
    storage.remove_all_components(0);
    storage.remove_all_components(40);
    assert_eq!(storage.get_component::<Name>(2), Some(&Name("two".to_string())));
    assert_eq!(storage.get_component::<Health>(3), Some(&Health(3)));
}

#[test]
fn registering_a_column_anew_empties_it_alone() {
    let mut storage: ComponentStorage<Cell> = ComponentStorage::new(4);
    storage.register_component_type::<Name>();
    assert!(!storage.has_component::<Name>(0));

    storage.add_component(0, Name("zero".to_string()));
    storage.add_component(0, Health(7));
    storage.register_component_type::<Name>();

    assert!(!storage.has_component::<Name>(0));
    assert_eq!(storage.get_component::<Health>(0), Some(&Health(7)));
    storage.add_component(0, Name("again".to_string()));
    assert_eq!(storage.get_component::<Name>(0), Some(&Name("again".to_string())));
}
