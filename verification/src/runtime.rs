//! The application: the routes of its controllers, and the settings a
//! service starts with.

use crate::error::EmberError;
use crate::http::{Route, Router};
use crate::pattern::template_of;
use crate::routes::{route_views, RouteDescriptor, RouteView};
use crate::text::{chars_of, extend_chars, str_opt_view, string_of, trim, trim_chars};
use vstd::prelude::*;

verus! {

/// What a controller tells of itself: all of its routes.
pub trait ControllerMetadata {
    /// The controller's route descriptors.
    fn routes(&self) -> Vec<RouteDescriptor>;
}

/// A configuration that names the service and where it listens.
pub trait HasEmberService {
    /// Service name for logging.
    fn service_name(&self) -> Option<&str>;

    /// Listen address for logging.
    fn listen_addr(&self) -> Option<&str>;
}

/// A topic-based message bus.
pub trait MessageBus {
    /// Publishes a payload to a topic.
    fn publish(&self, topic: &str, payload: &[u8]) -> Result<(), EmberError>;
}

/// The registry entries of a list of routes: method name and template.
pub open spec fn entries_of(routes: Seq<RouteView>) -> Seq<(Seq<char>, Seq<char>)> {
    Seq::new(routes.len(), |i: int| (routes[i].verb.name(), template_of(routes[i].parts)))
}

/// An application under construction: the merged routes of its
/// controllers.
#[derive(Debug)]
pub struct App {
    router: Router,
}

impl View for App {
    type V = Seq<(Seq<char>, Seq<char>)>;

    /// The registered routes, oldest first.
    closed spec fn view(&self) -> Seq<(Seq<char>, Seq<char>)> {
        self.router@
    }
}

impl App {
    /// An application without routes.
    pub fn new() -> (a: Self)
        ensures
            a@ == Seq::<(Seq<char>, Seq<char>)>::empty(),
    {
        App { router: Router::new() }
    }

    /// Registers a route after those already there.
    pub fn register_route(&mut self, method: &str, path: &str)
        ensures
            final(self)@ == old(self)@.push((method@, path@)),
    {
        self.router.register(method, path);
    }

    /// Registers each of `routes`, in order, after those already there.
    pub fn register_routes(&mut self, routes: &Vec<RouteDescriptor>)
        ensures
            final(self)@ == old(self)@ + entries_of(route_views(routes@)),
    {
        let ghost entries = entries_of(route_views(routes@));
        let mut i: usize = 0;
        assert(self@ =~= old(self)@ + entries.take(0));
        while i < routes.len()
            invariant
                i <= routes@.len(),
                entries == entries_of(route_views(routes@)),
                self@ == old(self)@ + entries.take(i as int),
            decreases routes@.len() - i,
        {
            let route = &routes[i];
            let ghost before = self@;
            assert(route_views(routes@)[i as int] == route@);
            let path = route.pattern.template();
            self.router.register(route.pattern.verb.as_str(), path.as_str());
            assert(before.push(entries[i as int]) =~= old(self)@ + entries.take(i + 1));
            i += 1;
        }
        assert(entries.take(routes@.len() as int) =~= entries);
    }

    /// Asks the controller for its routes, once, and registers them in
    /// order after those already there.
    pub fn register_controller<T: ControllerMetadata>(&mut self, controller: &T)
        ensures
            exists|routes: Seq<RouteView>| final(self)@ == old(self)@ + entries_of(routes),
    {
        let routes = controller.routes();
        self.register_routes(&routes);
    }

    /// The registered routes, oldest first.
    pub fn routes(&self) -> (r: &Vec<Route>)
        ensures
            r@.len() == self@.len(),
            forall|i: int| 0 <= i < r@.len() ==> (#[trigger] r@[i])@ == self@[i],
    {
        self.router.routes()
    }

    /// Starts the application: the number of routes it starts with.
    pub fn run(self) -> (r: Result<usize, EmberError>)
        ensures
            r == Ok::<usize, EmberError>(self@.len() as usize),
    {
        Ok(self.router.len())
    }
}

/// Whether a setting counts as not given: it is all white space.
pub open spec fn is_blank(value: Seq<char>) -> bool {
    trim(value).len() == 0
}

/// Whether a setting counts as not given.
pub fn blank(value: &str) -> (r: bool)
    ensures
        r == is_blank(value@),
{
    trim_chars(&chars_of(value)).len() == 0
}

/// The first of `configured` and `fallback` that is given and not blank,
/// else `default`.
pub open spec fn setting_of(
    configured: Option<Seq<char>>,
    fallback: Option<Seq<char>>,
    default: Seq<char>,
) -> Seq<char> {
    if configured is Some && !is_blank(configured->0) {
        configured->0
    } else if fallback is Some && !is_blank(fallback->0) {
        fallback->0
    } else {
        default
    }
}

/// Picks a setting; see [`setting_of`].
pub fn pick_setting(configured: Option<&str>, fallback: Option<&str>, default: &str) -> (s: String)
    ensures
        s@ == setting_of(
            str_opt_view(configured),
            str_opt_view(fallback),
            default@,
        ),
{
    match configured {
        Some(value) => {
            if !blank(value) {
                return value.to_owned();
            }
        },
        None => {},
    }
    match fallback {
        Some(value) => {
            if !blank(value) {
                return value.to_owned();
            }
        },
        None => {},
    }
    default.to_owned()
}

/// The name a service runs under: the configured one, else the one from
/// the environment, else `ember-service`.
pub fn service_name_of<C: HasEmberService>(config: &C, from_env: Option<&str>) -> (s: String)
    ensures
        exists|configured: Option<Seq<char>>|
            s@ == setting_of(configured, str_opt_view(from_env), "ember-service"@),
{
    let configured = config.service_name();
    pick_setting(configured, from_env, "ember-service")
}

/// The address a service listens on: the configured one, else the one
/// from the environment, else `0.0.0.0:8080`.
pub fn listen_addr_of<C: HasEmberService>(config: &C, from_env: Option<&str>) -> (s: String)
    ensures
        exists|configured: Option<Seq<char>>|
            s@ == setting_of(configured, str_opt_view(from_env), "0.0.0.0:8080"@),
{
    let configured = config.listen_addr();
    pick_setting(configured, from_env, "0.0.0.0:8080")
}

/// Where a service finds its configuration.
#[derive(Debug, Clone, Copy)]
pub struct RunOptions<'a> {
    /// Base directory for locating `application*.yaml`.
    pub base_dir: &'a str,
    /// Environment variable that selects the profile.
    pub profile_env: &'a str,
    /// Environment variable with JSON configuration fallback.
    pub config_env: &'a str,
    /// Base name for YAML files (without extension).
    pub yaml_base_name: &'a str,
    /// Environment variable with the service name for logging.
    pub service_env: &'a str,
    /// Environment variable with the listen address for logging.
    pub listen_env: &'a str,
}

/// The name of the configuration file: `base-profile.yaml` where a profile
/// that is not blank is selected and that file exists, else `base.yaml`.
pub open spec fn yaml_file_of(base: Seq<char>, profile: Option<Seq<char>>, exists: bool) -> Seq<
    char,
> {
    if profile is Some && !is_blank(profile->0) && exists {
        base + "-"@ + profile->0 + ".yaml"@
    } else {
        base + ".yaml"@
    }
}

impl<'a> RunOptions<'a> {
    /// The options rooted at `base_dir`, with the usual names.
    pub fn new(base_dir: &'a str) -> (o: Self)
        ensures
            o.base_dir@ == base_dir@,
            o.profile_env@ == "EMBER_PROFILE"@,
            o.config_env@ == "EMBER_CONFIG_JSON"@,
            o.yaml_base_name@ == "application"@,
            o.service_env@ == "EMBER_SERVICE"@,
            o.listen_env@ == "EMBER_LISTEN"@,
    {
        RunOptions {
            base_dir,
            profile_env: "EMBER_PROFILE",
            config_env: "EMBER_CONFIG_JSON",
            yaml_base_name: "application",
            service_env: "EMBER_SERVICE",
            listen_env: "EMBER_LISTEN",
        }
    }

    /// The name of the profile's configuration file, if a profile that is
    /// not blank is selected.
    pub fn profile_file(&self, profile: Option<&str>) -> (r: Option<String>)
        ensures
            match r {
                Some(name) => profile matches Some(p) && !is_blank(p@) && name@
                    == self.yaml_base_name@ + "-"@ + p@ + ".yaml"@,
                None => profile matches Some(p) ==> is_blank(p@),
            },
    {
        match profile {
            Some(p) => {
                if blank(p) {
                    None
                } else {
                    let mut name = chars_of(self.yaml_base_name);
                    extend_chars(&mut name, &chars_of("-"));
                    extend_chars(&mut name, &chars_of(p));
                    extend_chars(&mut name, &chars_of(".yaml"));
                    Some(string_of(&name))
                }
            },
            None => None,
        }
    }

    /// The name of the configuration file in the base directory; see
    /// [`yaml_file_of`]. `profile_file_exists` says whether the file of
    /// [`Self::profile_file`] is there.
    pub fn resolve_yaml_path(&self, profile: Option<&str>, profile_file_exists: bool) -> (name:
        String)
        ensures
            name@ == yaml_file_of(
                self.yaml_base_name@,
                str_opt_view(profile),
                profile_file_exists,
            ),
    {
        if profile_file_exists {
            match self.profile_file(profile) {
                Some(name) => {
                    return name;
                },
                None => {},
            }
        }
        let mut name = chars_of(self.yaml_base_name);
        extend_chars(&mut name, &chars_of(".yaml"));
        string_of(&name)
    }
}

} // verus!
