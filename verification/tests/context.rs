use std::rc::Rc;

use rupta::mir::call_site::{BaseCallSite, Location};
use rupta::mir::context::{Context, ContextCache, ContextElement, ContextId};
use rupta::mir::function::FuncId;
use rupta::util::SameValue;

#[derive(Clone, PartialEq, Eq, Hash, Debug)]
struct Site(u32);

impl SameValue for Site {
    type Model = Site;

    fn model(&self) -> Site {
        self.clone()
    }

    fn same_value(&self, other: &Self) -> bool {
        self == other
    }
}

impl ContextElement for Site {
    fn copy_element(&self) -> Self {
        self.clone()
    }
}

fn ctx(elems: &[u32]) -> Rc<Context<Site>> {
    Context::new(elems.iter().map(|e| Site(*e)).collect())
}

#[test]
fn it_works() {}

#[test]
fn empty_context_has_no_elements() {
    let c: Rc<Context<Site>> = Context::new_empty();
    assert_eq!(c.len(), 0);
    assert!(c.first_context_element().is_none());
    assert!(c.last_context_element().is_none());
}

#[test]
fn k_limited_context_prepends_and_cuts() {
    let old = ctx(&[1, 2, 3]);
    let c = Context::new_k_limited_context(&old, Site(9), 2);
    assert_eq!(c.len(), 2);
    assert_eq!(c.first_context_element(), Some(&Site(9)));
    assert_eq!(c.last_context_element(), Some(&Site(1)));
    assert_eq!(*c, *ctx(&[9, 1]));

    let short = ctx(&[4]);
    let c = Context::new_k_limited_context(&short, Site(5), 3);
    assert_eq!(*c, *ctx(&[5, 4]));

    let c = Context::new_k_limited_context(&old, Site(7), 0);
    assert_eq!(c.len(), 0);
}

#[test]
fn k_limited_context_cuts_long_contexts_only() {
    let c = ctx(&[1, 2, 3, 4]);
    let cut = Context::k_limited_context(&c, 2);
    assert_eq!(*cut, *ctx(&[1, 2]));
    let same = Context::k_limited_context(&c, 4);
    assert!(Rc::ptr_eq(&same, &c));
    let none = Context::k_limited_context(&c, 0);
    assert_eq!(none.len(), 0);
}

#[test]
fn context_cache_numbers_each_context_once() {
    let mut cache: ContextCache<Site> = ContextCache::new();
    let a = ctx(&[1, 2]);
    let b = ctx(&[2, 1]);
    let ia = cache.get_context_id(&a);
    let ib = cache.get_context_id(&b);
    assert_eq!(ia, ContextId::new(0));
    assert_eq!(ib, ContextId::new(1));
    assert_eq!(cache.get_context_id(&ctx(&[1, 2])), ia);
    assert_eq!(cache.context_list().len(), 2);
    assert_eq!(*cache.get_context(ib).unwrap(), *b);
    assert!(cache.get_context(ContextId::new(2)).is_none());
    assert_eq!(ia.index(), 0);
}

#[test]
fn call_sites_as_context_elements() {
    let site = BaseCallSite::new(FuncId::new(3), Location { block: 1, statement_index: 2 });
    let empty: Rc<Context<BaseCallSite>> = Context::new_empty();
    let c = Context::new_k_limited_context(&empty, site, 1);
    assert_eq!(c.first_context_element(), Some(&site));
    let mut cache: ContextCache<BaseCallSite> = ContextCache::default();
    let id = cache.get_context_id(&c);
    assert_eq!(id.index, 0);
}
