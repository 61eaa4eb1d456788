//! The service registry: a static table of service definitions, keyed by
//! unique service name. Only the auto-restart flag is mutable after
//! construction.

use vstd::prelude::*;
use vstd::string::StringExecFns;
use crate::text::str_eq;

verus! {

/// Static definition of one supervised service.
pub struct ServiceConfig {
    pub name: String,
    pub command: String,
    pub working_dir: String,
    pub port: Option<u16>,
    pub health_check_url: Option<String>,
    pub dependencies: Vec<String>,
    pub auto_restart: bool,
    pub log_path: Option<String>,
}

/// Mathematical image of a [`ServiceConfig`].
#[verifier::ext_equal]
pub struct ServiceConfigV {
    pub name: Seq<char>,
    pub command: Seq<char>,
    pub working_dir: Seq<char>,
    pub port: Option<u16>,
    pub health_check_url: Option<Seq<char>>,
    pub dependencies: Seq<Seq<char>>,
    pub auto_restart: bool,
    pub log_path: Option<Seq<char>>,
}

impl View for ServiceConfig {
    type V = ServiceConfigV;

    open spec fn view(&self) -> ServiceConfigV {
        ServiceConfigV {
            name: self.name@,
            command: self.command@,
            working_dir: self.working_dir@,
            port: self.port,
            health_check_url: match self.health_check_url {
                Some(u) => Some(u@),
                None => None,
            },
            dependencies: Seq::new(
                self.dependencies@.len(),
                |i: int| self.dependencies@[i]@,
            ),
            auto_restart: self.auto_restart,
            log_path: match self.log_path {
                Some(p) => Some(p@),
                None => None,
            },
        }
    }
}

/// The table of service definitions. The name of each service is its key.
pub struct Registry {
    pub services: Vec<ServiceConfig>,
}

impl View for Registry {
    type V = Seq<ServiceConfigV>;

    open spec fn view(&self) -> Seq<ServiceConfigV> {
        Seq::new(self.services@.len(), |i: int| self.services@[i]@)
    }
}

/// Some entry of `v` carries `name`.
pub open spec fn has_service(v: Seq<ServiceConfigV>, name: Seq<char>) -> bool {
    exists|i: int| 0 <= i < v.len() && v[i].name == name
}

/// The index of the entry of `v` that carries `name` (meaningful only when
/// `has_service` holds and names are unique).
pub open spec fn service_index(v: Seq<ServiceConfigV>, name: Seq<char>) -> int {
    choose|i: int| 0 <= i < v.len() && v[i].name == name
}

/// The entry of `v` that carries `name`.
pub open spec fn spec_service(v: Seq<ServiceConfigV>, name: Seq<char>) -> ServiceConfigV {
    v[service_index(v, name)]
}

/// No two entries carry the same name.
pub open spec fn unique_names(v: Seq<ServiceConfigV>) -> bool {
    forall|i: int, j: int|
        #![trigger v[i], v[j]]
        0 <= i < j < v.len() ==> v[i].name != v[j].name
}

/// With unique names, an entry that carries `name` is the looked-up entry.
pub proof fn lemma_service_index_unique(v: Seq<ServiceConfigV>, name: Seq<char>, i: int)
    requires
        unique_names(v),
        0 <= i < v.len(),
        v[i].name == name,
    ensures
        has_service(v, name),
        service_index(v, name) == i,
        spec_service(v, name) == v[i],
{
    assert(has_service(v, name));
    let k = service_index(v, name);
    assert(0 <= k < v.len() && v[k].name == name);
    if k != i {
        assert(v[k].name != v[i].name);
        assert(false);
    }
}

impl Registry {
    /// Names are unique, so lookup by name is unambiguous.
    pub open spec fn wf(&self) -> bool {
        unique_names(self@)
    }

    /// An empty registry.
    pub fn new() -> (r: Registry)
        ensures
            r.wf(),
            r@.len() == 0,
    {
        Registry { services: Vec::new() }
    }

    /// Adds a service definition; refused when the name is already taken.
    pub fn register(&mut self, cfg: ServiceConfig) -> (added: bool)
        requires
            old(self).wf(),
        ensures
            final(self).wf(),
            added == !has_service(old(self)@, cfg@.name),
            added ==> final(self)@ == old(self)@.push(cfg@),
            !added ==> final(self)@ == old(self)@,
    {
        let n = self.services.len();
        let mut i: usize = 0;
        while i < n
            invariant
                old(self).wf(),
                *self == *old(self),
                n == self.services@.len(),
                i <= n,
                forall|j: int| 0 <= j < i ==> self@[j].name != cfg@.name,
            decreases n - i,
        {
            if str_eq(self.services[i].name.as_str(), cfg.name.as_str()) {
                proof {
                    assert(self@[i as int].name == cfg@.name);
                }
                return false;
            }
            proof {
                assert(self@[i as int].name != cfg@.name);
            }
            i = i + 1;
        }
        self.services.push(cfg);
        proof {
            assert(self@ =~= old(self)@.push(cfg@));
            assert forall|a: int, b: int|
                #![trigger self@[a], self@[b]]
                0 <= a < b < self@.len() implies self@[a].name != self@[b].name by {
                if b < self@.len() - 1 {
                    assert(old(self)@[a].name != old(self)@[b].name);
                } else {
                    assert(self@[b] == cfg@);
                    assert(old(self)@[a].name != cfg@.name);
                }
            }
        }
        true
    }

    /// Looks up the definition of `name`; `None` exactly when `name` is
    /// not registered.
    pub fn get(&self, name: &str) -> (r: Option<&ServiceConfig>)
        requires
            self.wf(),
        ensures
            match r {
                Some(c) => has_service(self@, name@) && c@ == spec_service(self@, name@),
                None => !has_service(self@, name@),
            },
    {
        let n = self.services.len();
        let mut i: usize = 0;
        while i < n
            invariant
                self.wf(),
                n == self.services@.len(),
                i <= n,
                forall|j: int| 0 <= j < i ==> self@[j].name != name@,
            decreases n - i,
        {
            if str_eq(self.services[i].name.as_str(), name) {
                proof {
                    lemma_service_index_unique(self@, name@, i as int);
                }
                return Some(&self.services[i]);
            }
            proof {
                assert(self@[i as int].name != name@);
            }
            i = i + 1;
        }
        None
    }

    /// All service definitions, in registration order.
    pub fn list(&self) -> (r: &Vec<ServiceConfig>)
        ensures
            r@ == self.services@,
            r@.len() == self@.len(),
            forall|i: int| 0 <= i < r@.len() ==> #[trigger] r@[i]@ == self@[i],
    {
        &self.services
    }

    /// Sets the auto-restart flag of `name`; reports whether `name` was
    /// registered. No other field of any service changes.
    pub fn set_auto_restart(&mut self, name: &str, enabled: bool) -> (r: bool)
        requires
            old(self).wf(),
        ensures
            final(self).wf(),
            r == has_service(old(self)@, name@),
            r ==> final(self)@ == old(self)@.update(
                service_index(old(self)@, name@),
                ServiceConfigV {
                    auto_restart: enabled,
                    ..spec_service(old(self)@, name@)
                },
            ),
            !r ==> final(self)@ == old(self)@,
    {
        let n = self.services.len();
        let mut i: usize = 0;
        while i < n
            invariant
                old(self).wf(),
                *self == *old(self),
                n == self.services@.len(),
                i <= n,
                forall|j: int| 0 <= j < i ==> self@[j].name != name@,
            decreases n - i,
        {
            if str_eq(self.services[i].name.as_str(), name) {
                proof {
                    lemma_service_index_unique(self@, name@, i as int);
                }
                self.services[i].auto_restart = enabled;
                proof {
                    assert(self@ =~~= old(self)@.update(
                        i as int,
                        ServiceConfigV {
                            auto_restart: enabled,
                            ..spec_service(old(self)@, name@)
                        },
                    ));
                    assert forall|a: int, b: int|
                        #![trigger self@[a], self@[b]]
                        0 <= a < b < self@.len() implies
                        self@[a].name != self@[b].name by {
                        assert(old(self)@[a].name != old(self)@[b].name);
                        assert(self@[a].name == old(self)@[a].name);
                        assert(self@[b].name == old(self)@[b].name);
                    }
                }
                return true;
            }
            proof {
                assert(self@[i as int].name != name@);
            }
            i = i + 1;
        }
        false
    }
}


/// The standard service table: the five locally run development services
/// this supervisor manages, with their launch commands, working
/// directories, ports, health-check endpoints, dependencies, and log
/// paths.
pub open spec fn standard_config_views() -> Seq<ServiceConfigV> {
    seq![
        ServiceConfigV {
            name: "web-app"@,
            command: "npm run dev"@,
            working_dir: "C:\\dev"@,
            port: Some(5173u16),
            health_check_url: Some("http://localhost:5173"@),
            dependencies: seq!["backend"@],
            auto_restart: false,
            log_path: Some("C:\\dev\\vite-web-app.log"@),
        },
        ServiceConfigV {
            name: "backend"@,
            command: "npm run dev"@,
            working_dir: "C:\\dev\\backend"@,
            port: Some(3000u16),
            health_check_url: Some("http://localhost:3000/health"@),
            dependencies: Seq::empty(),
            auto_restart: false,
            log_path: Some("C:\\dev\\backend\\backend.log"@),
        },
        ServiceConfigV {
            name: "trading-bot"@,
            command: ".venv\\Scripts\\python.exe start_live_trading.py"@,
            working_dir: "C:\\dev\\projects\\crypto-enhanced"@,
            port: None,
            health_check_url: None,
            dependencies: Seq::empty(),
            auto_restart: false,
            log_path: Some("C:\\dev\\trading_new.log"@),
        },
        ServiceConfigV {
            name: "booking-platform"@,
            command: "npm run dev"@,
            working_dir: "C:\\dev\\projects\\active\\web-apps\\business-booking-platform"@,
            port: Some(5174u16),
            health_check_url: Some("http://localhost:5174"@),
            dependencies: Seq::empty(),
            auto_restart: false,
            log_path: Some(
                "C:\\dev\\projects\\active\\web-apps\\business-booking-platform\\vite.log"@,
            ),
        },
        ServiceConfigV {
            name: "content-builder"@,
            command: "npm run dev"@,
            working_dir: "C:\\dev\\projects\\active\\web-apps\\digital-content-builder"@,
            port: Some(5175u16),
            health_check_url: Some("http://localhost:5175"@),
            dependencies: Seq::empty(),
            auto_restart: false,
            log_path: Some(
                "C:\\dev\\projects\\active\\web-apps\\digital-content-builder\\vite.log"@,
            ),
        },
    ]
}

impl Registry {
    /// Builds the standard service table.
    pub fn standard() -> (r: Registry)
        ensures
            r.wf(),
            r@ == standard_config_views(),
    {
        let mut services: Vec<ServiceConfig> = Vec::new();
        let mut deps_web: Vec<String> = Vec::new();
        deps_web.push(String::from_str("backend"));
        services.push(ServiceConfig {
            name: String::from_str("web-app"),
            command: String::from_str("npm run dev"),
            working_dir: String::from_str("C:\\dev"),
            port: Some(5173),
            health_check_url: Some(String::from_str("http://localhost:5173")),
            dependencies: deps_web,
            auto_restart: false,
            log_path: Some(String::from_str("C:\\dev\\vite-web-app.log")),
        });
        services.push(ServiceConfig {
            name: String::from_str("backend"),
            command: String::from_str("npm run dev"),
            working_dir: String::from_str("C:\\dev\\backend"),
            port: Some(3000),
            health_check_url: Some(String::from_str("http://localhost:3000/health")),
            dependencies: Vec::new(),
            auto_restart: false,
            log_path: Some(String::from_str("C:\\dev\\backend\\backend.log")),
        });
        services.push(ServiceConfig {
            name: String::from_str("trading-bot"),
            command: String::from_str(".venv\\Scripts\\python.exe start_live_trading.py"),
            working_dir: String::from_str("C:\\dev\\projects\\crypto-enhanced"),
            port: None,
            health_check_url: None,
            dependencies: Vec::new(),
            auto_restart: false,
            log_path: Some(String::from_str("C:\\dev\\trading_new.log")),
        });
        services.push(ServiceConfig {
            name: String::from_str("booking-platform"),
            command: String::from_str("npm run dev"),
            working_dir: String::from_str(
                "C:\\dev\\projects\\active\\web-apps\\business-booking-platform",
            ),
            port: Some(5174),
            health_check_url: Some(String::from_str("http://localhost:5174")),
            dependencies: Vec::new(),
            auto_restart: false,
            log_path: Some(String::from_str(
                "C:\\dev\\projects\\active\\web-apps\\business-booking-platform\\vite.log",
            )),
        });
        services.push(ServiceConfig {
            name: String::from_str("content-builder"),
            command: String::from_str("npm run dev"),
            working_dir: String::from_str(
                "C:\\dev\\projects\\active\\web-apps\\digital-content-builder",
            ),
            port: Some(5175),
            health_check_url: Some(String::from_str("http://localhost:5175")),
            dependencies: Vec::new(),
            auto_restart: false,
            log_path: Some(String::from_str(
                "C:\\dev\\projects\\active\\web-apps\\digital-content-builder\\vite.log",
            )),
        });
        let r = Registry { services };
        proof {
            assert(r@ =~~= standard_config_views());
            reveal_strlit("web-app");
            reveal_strlit("backend");
            reveal_strlit("trading-bot");
            reveal_strlit("booking-platform");
            reveal_strlit("content-builder");
            assert("web-app"@ != "backend"@) by {
                assert("web-app"@[0] == 'w');
                assert("backend"@[0] == 'b');
            }
            assert("web-app"@ != "trading-bot"@) by {
                assert("web-app"@.len() == 7);
                assert("trading-bot"@.len() == 11);
            }
            assert("web-app"@ != "booking-platform"@) by {
                assert("web-app"@.len() == 7);
                assert("booking-platform"@.len() == 16);
            }
            assert("web-app"@ != "content-builder"@) by {
                assert("web-app"@.len() == 7);
                assert("content-builder"@.len() == 15);
            }
            assert("backend"@ != "trading-bot"@) by {
                assert("backend"@.len() == 7);
                assert("trading-bot"@.len() == 11);
            }
            assert("backend"@ != "booking-platform"@) by {
                assert("backend"@.len() == 7);
                assert("booking-platform"@.len() == 16);
            }
            assert("backend"@ != "content-builder"@) by {
                assert("backend"@.len() == 7);
                assert("content-builder"@.len() == 15);
            }
            assert("trading-bot"@ != "booking-platform"@) by {
                assert("trading-bot"@.len() == 11);
                assert("booking-platform"@.len() == 16);
            }
            assert("trading-bot"@ != "content-builder"@) by {
                assert("trading-bot"@.len() == 11);
                assert("content-builder"@.len() == 15);
            }
            assert("booking-platform"@ != "content-builder"@) by {
                assert("booking-platform"@.len() == 16);
                assert("content-builder"@.len() == 15);
            }
            let v = standard_config_views();
            assert(unique_names(r@)) by {
                assert forall|i: int, j: int|
                    #![trigger r@[i], r@[j]]
                    0 <= i < j < r@.len() implies r@[i].name != r@[j].name by {
                    assert(r@[i].name == v[i].name);
                    assert(r@[j].name == v[j].name);
                    if i == 0 { if j == 1 { assert(v[0].name == "web-app"@ && v[1].name == "backend"@); } else if j == 2 { assert(v[0].name == "web-app"@ && v[2].name == "trading-bot"@); } else if j == 3 { assert(v[0].name == "web-app"@ && v[3].name == "booking-platform"@); } else if j == 4 { assert(v[0].name == "web-app"@ && v[4].name == "content-builder"@); } }
                    if i == 1 { if j == 2 { assert(v[1].name == "backend"@ && v[2].name == "trading-bot"@); } else if j == 3 { assert(v[1].name == "backend"@ && v[3].name == "booking-platform"@); } else if j == 4 { assert(v[1].name == "backend"@ && v[4].name == "content-builder"@); } }
                    if i == 2 { if j == 3 { assert(v[2].name == "trading-bot"@ && v[3].name == "booking-platform"@); } else if j == 4 { assert(v[2].name == "trading-bot"@ && v[4].name == "content-builder"@); } }
                    if i == 3 { if j == 4 { assert(v[3].name == "booking-platform"@ && v[4].name == "content-builder"@); } }
                }
            }
        }
        r
    }
}

} // verus!
