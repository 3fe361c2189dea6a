//! Checks on the service definitions that the loader hands to the core.

use crate::formats::{service_views, Service, ServiceView};
use vstd::prelude::*;

verus! {

/// Why a list of service definitions is refused.
#[derive(Clone, Copy, Debug, PartialEq, Eq, Structural)]
pub enum ValidationError {
    /// The definition at this position has an empty name.
    EmptyName(usize),
    /// The definition at this position repeats the name of an earlier one.
    DuplicateName(usize),
    /// The definition at this position starts after a name that no definition declares.
    UnknownStartAfter(usize),
}

/// Whether some definition in `services` is called `name`.
pub open spec fn declares(services: Seq<ServiceView>, name: Seq<char>) -> bool {
    exists|j: int| 0 <= j < services.len() && #[trigger] services[j].name == name
}

/// The definition at `i` has a name.
pub open spec fn is_named(services: Seq<ServiceView>, i: int) -> bool {
    services[i].name.len() > 0
}

/// The definition at `i` does not repeat the name of an earlier one.
pub open spec fn is_first_of_its_name(services: Seq<ServiceView>, i: int) -> bool {
    !declares(services.take(i), services[i].name)
}

/// Every name that the definition at `i` starts after is declared.
pub open spec fn knows_its_predecessors(services: Seq<ServiceView>, i: int) -> bool {
    forall|k: int|
        0 <= k < services[i].start_after.len() ==> declares(
            services,
            #[trigger] services[i].start_after[k],
        )
}

/// Every definition has a name.
pub open spec fn names_present(services: Seq<ServiceView>) -> bool {
    forall|i: int| 0 <= i < services.len() ==> is_named(services, i)
}

/// No two definitions share a name.
pub open spec fn names_unique(services: Seq<ServiceView>) -> bool {
    forall|i: int, j: int|
        0 <= i < j < services.len() ==> #[trigger] services[i].name != #[trigger] services[j].name
}

/// Every `start_after` entry names a declared service.
pub open spec fn predecessors_declared(services: Seq<ServiceView>) -> bool {
    forall|i: int| 0 <= i < services.len() ==> knows_its_predecessors(services, i)
}

/// What the core expects of the definitions it is handed.
pub open spec fn valid_services(services: Seq<ServiceView>) -> bool {
    &&& names_present(services)
    &&& names_unique(services)
    &&& predecessors_declared(services)
}

/// Whether `fault` is the first fault of the definitions: an empty name if
/// there is one, else a repeated name if there is one, else a `start_after`
/// entry that names no declared service; each at the first position where it
/// occurs.
pub open spec fn is_first_fault(services: Seq<ServiceView>, fault: ValidationError) -> bool {
    match fault {
        ValidationError::EmptyName(i) => {
            &&& i < services.len()
            &&& !is_named(services, i as int)
            &&& forall|k: int| 0 <= k < i ==> is_named(services, k)
        },
        ValidationError::DuplicateName(i) => {
            &&& names_present(services)
            &&& i < services.len()
            &&& !is_first_of_its_name(services, i as int)
            &&& forall|k: int| 0 <= k < i ==> is_first_of_its_name(services, k)
        },
        ValidationError::UnknownStartAfter(i) => {
            &&& names_present(services)
            &&& names_unique(services)
            &&& i < services.len()
            &&& !knows_its_predecessors(services, i as int)
            &&& forall|k: int| 0 <= k < i ==> knows_its_predecessors(services, k)
        },
    }
}

/// Looks among the first `upto` definitions for one called `name`.
fn position_of(services: &Vec<Service>, upto: usize, name: &String) -> (found: Option<usize>)
    requires
        upto <= services.len(),
    ensures
        match found {
            Some(j) => j < upto && services[j as int]@.name == name@,
            None => !declares(service_views(services@).take(upto as int), name@),
        },
{
    let mut j: usize = 0;
    while j < upto
        invariant
            j <= upto <= services.len(),
            forall|k: int| 0 <= k < j ==> services[k]@.name != name@,
        decreases upto - j,
    {
        if services[j].name == *name {
            return Some(j);
        }
        j += 1;
    }
    None
}

/// Whether every name that `service` starts after is declared in `services`.
fn predecessors_known(services: &Vec<Service>, i: usize) -> (known: bool)
    requires
        i < services.len(),
    ensures
        known == knows_its_predecessors(service_views(services@), i as int),
{
    let ghost sv = service_views(services@);
    let service = &services[i];
    let mut k: usize = 0;
    while k < service.start_after.len()
        invariant
            k <= service.start_after.len(),
            sv == service_views(services@),
            i < services.len(),
            *service == services[i as int],
            forall|m: int| 0 <= m < k ==> declares(sv, #[trigger] sv[i as int].start_after[m]),
        decreases service.start_after.len() - k,
    {
        assert(sv.take(services.len() as int) =~= sv);
        assert(sv[i as int].start_after[k as int] == service.start_after[k as int]@);
        match position_of(services, services.len(), &service.start_after[k]) {
            Some(j) => {
                assert(sv[j as int].name == sv[i as int].start_after[k as int]);
            },
            None => {
                return false;
            },
        }
        k += 1;
    }
    true
}

/// Accepts the definitions when every one has a name, no name occurs twice and
/// every `start_after` entry names a declared service; otherwise reports the
/// first fault, empty names before repeated names before unknown predecessors.
pub fn validate(services: Vec<Service>) -> (checked: Result<Vec<Service>, ValidationError>)
    ensures
        match checked {
            Ok(accepted) => valid_services(service_views(services@)) && accepted == services,
            Err(fault) => is_first_fault(service_views(services@), fault),
        },
{
    let ghost sv = service_views(services@);
    let mut i: usize = 0;
    while i < services.len()
        invariant
            i <= services.len(),
            sv == service_views(services@),
            forall|k: int| 0 <= k < i ==> is_named(sv, k),
        decreases services.len() - i,
    {
        if services[i].name.as_str().is_empty() {
            return Err(ValidationError::EmptyName(i));
        }
        i += 1;
    }
    let mut i: usize = 0;
    while i < services.len()
        invariant
            i <= services.len(),
            sv == service_views(services@),
            names_present(sv),
            forall|k: int| 0 <= k < i ==> is_first_of_its_name(sv, k),
        decreases services.len() - i,
    {
        match position_of(&services, i, &services[i].name) {
            Some(j) => {
                assert(sv.take(i as int)[j as int].name == sv[i as int].name);
                return Err(ValidationError::DuplicateName(i));
            },
            None => {},
        }
        i += 1;
    }
    proof {
        lemma_first_of_name_gives_unique(sv);
    }
    let mut i: usize = 0;
    while i < services.len()
        invariant
            i <= services.len(),
            sv == service_views(services@),
            names_present(sv),
            names_unique(sv),
            forall|k: int| 0 <= k < i ==> knows_its_predecessors(sv, k),
        decreases services.len() - i,
    {
        if !predecessors_known(&services, i) {
            return Err(ValidationError::UnknownStartAfter(i));
        }
        i += 1;
    }
    Ok(services)
}

/// Names are unique exactly when no definition repeats an earlier name.
pub proof fn lemma_first_of_name_gives_unique(services: Seq<ServiceView>)
    requires
        forall|k: int| 0 <= k < services.len() ==> is_first_of_its_name(services, k),
    ensures
        names_unique(services),
{
    assert forall|i: int, j: int| 0 <= i < j < services.len() implies #[trigger] services[i].name
        != #[trigger] services[j].name by {
        assert(is_first_of_its_name(services, j));
        if services[i].name == services[j].name {
            assert(services.take(j)[i].name == services[j].name);
        }
    }
}

} // verus!
