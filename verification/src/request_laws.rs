//! Requests that change something: they must be genuine and well formed, or nothing changes.
use vstd::prelude::*;

use crate::dns::DnsAttributionCache;
use crate::domain::{DataDeletionResult, Device};
use crate::service::ObservationService;
use crate::storage::RouteScopeRepository;

verus! {

/// A deletion that may be forged is forbidden, and one that is refused for whatever reason forgets
/// nothing of what is remembered of names.
pub proof fn deletions_of_devices_must_be_genuine<R: RouteScopeRepository>(
    genuine: bool,
    mac: &str,
)
    ensures
        forall|
            service: &mut ObservationService<R>,
            cache: &mut DnsAttributionCache,
            r: Result<DataDeletionResult, u16>,
        | #[trigger]
            call_ensures(
                crate::api::delete_device_data::<R>,
                (service, cache, genuine, mac),
                r,
            ) ==> {
                &&& !genuine ==> r == Err::<DataDeletionResult, u16>(403) && *final(service)
                    == *service
                &&& r is Err ==> (*final(cache))@ == (*cache)@
                &&& r is Ok ==> genuine && (*final(cache))@ == crate::dns::without_device(
                    (*cache)@,
                    mac@,
                )
                &&& r matches Err(status) ==> status == 403 || status == 404 || status == 500
            },
{
}

/// A domain is removed only on a genuine request, under its normal name; a name that is none is a
/// bad request, and a refused request forgets nothing.
pub proof fn deletions_of_domains_must_be_genuine<R: RouteScopeRepository>(
    genuine: bool,
    mac: &str,
    domain: &str,
)
    ensures
        forall|
            service: &mut ObservationService<R>,
            cache: &mut DnsAttributionCache,
            r: Result<DataDeletionResult, u16>,
        | #[trigger]
            call_ensures(
                crate::api::delete_device_domain_data::<R>,
                (service, cache, genuine, mac, domain),
                r,
            ) ==> {
                &&& !genuine ==> r == Err::<DataDeletionResult, u16>(403) && *final(service)
                    == *service
                &&& r is Err ==> (*final(cache))@ == (*cache)@
                &&& r is Ok ==> genuine && crate::dns::domain_of(domain@) is Some
                    && (*final(cache))@ == crate::dns::without_domain(
                    (*cache)@,
                    Some(mac@),
                    crate::dns::domain_of(domain@)->0,
                )
            },
        forall|
            service: &mut ObservationService<R>,
            cache: &mut DnsAttributionCache,
            r: Result<DataDeletionResult, u16>,
        | #[trigger]
            call_ensures(
                crate::api::delete_global_domain_data::<R>,
                (service, cache, genuine, domain),
                r,
            ) ==> {
                &&& !genuine ==> r == Err::<DataDeletionResult, u16>(403) && *final(service)
                    == *service
                &&& genuine && crate::dns::domain_of(domain@) is None ==> r == Err::<
                    DataDeletionResult,
                    u16,
                >(400) && *final(service) == *service
                &&& r is Err ==> (*final(cache))@ == (*cache)@
                &&& r is Ok ==> genuine && crate::dns::domain_of(domain@) is Some
                    && (*final(cache))@ == crate::dns::without_domain(
                    (*cache)@,
                    None,
                    crate::dns::domain_of(domain@)->0,
                )
            },
{
}

/// A stretch of time is removed only on a genuine request, and only where it begins before it ends.
pub proof fn deletions_of_time_must_be_genuine<R: RouteScopeRepository>(
    genuine: bool,
    from_ms: Option<i64>,
    to_ms: Option<i64>,
)
    ensures
        forall|
            service: &mut ObservationService<R>,
            cache: &mut DnsAttributionCache,
            r: Result<DataDeletionResult, u16>,
        | #[trigger]
            call_ensures(
                crate::api::delete_time_range_data::<R>,
                (service, cache, genuine, from_ms, to_ms),
                r,
            ) ==> {
                let sound = from_ms is Some && to_ms is Some && from_ms->0 < to_ms->0;
                &&& !genuine ==> r == Err::<DataDeletionResult, u16>(403)
                &&& genuine && !sound ==> r == Err::<DataDeletionResult, u16>(400)
                &&& !genuine || !sound ==> *final(service) == *service
                &&& r is Err ==> (*final(cache))@ == (*cache)@
                &&& r is Ok ==> genuine && sound && (*final(cache))@ == crate::dns::without_range(
                    (*cache)@,
                    from_ms->0,
                    to_ms->0,
                )
                &&& genuine && sound && r is Err ==> r == Err::<DataDeletionResult, u16>(500)
            },
{
}

/// A device is named only on a genuine request, and only with a name that it may have.
pub proof fn namings_must_be_genuine<R: RouteScopeRepository>(
    genuine: bool,
    mac: &str,
    name: Option<&str>,
)
    ensures
        forall|service: &mut ObservationService<R>, r: Result<Device, u16>| #[trigger]
            call_ensures(
                crate::api::update_device_name::<R>,
                (service, genuine, mac, name),
                r,
            ) ==> {
                let fit = crate::domain::display_name_of(crate::storage::opt_str_view(name));
                &&& !genuine ==> r == Err::<Device, u16>(403)
                &&& genuine && fit is None ==> r == Err::<Device, u16>(400)
                &&& !genuine || fit is None ==> *final(service) == *service
                &&& r matches Err(status) ==> status == 403 || status == 400 || status == 404
                    || status == 500
            },
{
}

} // verus!
